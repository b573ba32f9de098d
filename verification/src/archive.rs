//! The report archive: CRC-32 checksums, UTC calendar times and the bytes of
//! a ZIP archive whose members are stored uncompressed.
use vstd::prelude::*;

use crate::text::{decimal, decimal_chars, push_char, push_chars};

verus! {

// ---------------------------------------------------------------- CRC-32

/// One bit step of the reflected CRC-32 register (polynomial `0xEDB88320`).
pub open spec fn crc_bit(c: u32) -> u32 {
    if c & 1u32 == 1u32 {
        (c >> 1u32) ^ 0xEDB8_8320u32
    } else {
        c >> 1u32
    }
}

/// `n` bit steps of the register.
pub open spec fn crc_bits(c: u32, n: nat) -> u32
    decreases n,
{
    if n == 0 {
        c
    } else {
        crc_bit(crc_bits(c, (n - 1) as nat))
    }
}

/// The register after one more byte.
pub open spec fn crc_byte(c: u32, b: u8) -> u32 {
    crc_bits(c ^ (b as u32), 8)
}

/// The register after the bytes, starting from all ones.
pub open spec fn crc_register(s: Seq<u8>) -> u32
    decreases s.len(),
{
    if s.len() == 0 {
        0xFFFF_FFFFu32
    } else {
        crc_byte(crc_register(s.drop_last()), s.last())
    }
}

/// The CRC-32 checksum of the bytes (ISO-HDLC, as ZIP uses it).
pub open spec fn crc32_spec(s: Seq<u8>) -> u32 {
    !crc_register(s)
}

/// The CRC-32 checksum of `bytes`.
pub fn crc32(bytes: &[u8]) -> (r: u32)
    ensures
        r == crc32_spec(bytes@),
{
    let mut crc: u32 = 0xFFFF_FFFF;
    let mut i: usize = 0;
    while i < bytes.len()
        invariant
            i <= bytes.len(),
            crc == crc_register(bytes@.take(i as int)),
        decreases bytes.len() - i,
    {
        assert(bytes@.take(i + 1).drop_last() =~= bytes@.take(i as int));
        let start: u32 = crc ^ (bytes[i] as u32);
        crc = start;
        let mut k: usize = 0;
        while k < 8
            invariant
                k <= 8,
                crc == crc_bits(start, k as nat),
            decreases 8 - k,
        {
            crc = if crc & 1u32 == 1u32 {
                (crc >> 1u32) ^ 0xEDB8_8320u32
            } else {
                crc >> 1u32
            };
            k += 1;
        }
        i += 1;
    }
    assert(bytes@.take(bytes.len() as int) =~= bytes@);
    !crc
}

// ------------------------------------------------------- UTC calendar time

/// A Gregorian leap year.
pub open spec fn is_leap(y: int) -> bool {
    (y % 4 == 0 && y % 100 != 0) || y % 400 == 0
}

/// The days of year `y`.
pub open spec fn year_days(y: int) -> int {
    if is_leap(y) {
        366
    } else {
        365
    }
}

/// The days of month `m` (1 to 12) of year `y`.
pub open spec fn month_days(y: int, m: int) -> int {
    if m == 2 {
        if is_leap(y) {
            29
        } else {
            28
        }
    } else if m == 4 || m == 6 || m == 9 || m == 11 {
        30
    } else {
        31
    }
}

/// The days from 1970-01-01 to the first day of year `y`.
pub open spec fn days_before_year(y: int) -> int
    decreases y - 1970,
{
    if y <= 1970 {
        0
    } else {
        days_before_year(y - 1) + year_days(y - 1)
    }
}

/// The days from the first of January to the first day of month `m`.
pub open spec fn days_before_month(y: int, m: int) -> int
    decreases m,
{
    if m <= 1 {
        0
    } else {
        days_before_month(y, m - 1) + month_days(y, m - 1)
    }
}

/// `y-m-d` is a calendar date, `days` days after 1970-01-01.
pub open spec fn is_civil_day(days: int, y: int, m: int, d: int) -> bool {
    &&& y >= 1970
    &&& 1 <= m <= 12
    &&& 1 <= d <= month_days(y, m)
    &&& days == days_before_year(y) + days_before_month(y, m) + d - 1
}

/// The twelve months fill the year.
proof fn lemma_months_fill_year(y: int)
    ensures
        days_before_month(y, 13) == year_days(y),
{
    reveal_with_fuel(days_before_month, 13);
}

proof fn lemma_years_increase(a: int, b: int)
    requires
        1970 <= a < b,
    ensures
        days_before_year(a) + year_days(a) <= days_before_year(b),
    decreases b - a,
{
    if b > a + 1 {
        lemma_years_increase(a, b - 1);
    }
}

proof fn lemma_months_increase(y: int, a: int, b: int)
    requires
        1 <= a < b,
    ensures
        days_before_month(y, a) + month_days(y, a) <= days_before_month(y, b),
    decreases b - a,
{
    if b > a + 1 {
        lemma_months_increase(y, a, b - 1);
    }
}

proof fn lemma_months_nonneg(y: int, m: int)
    ensures
        days_before_month(y, m) >= 0,
    decreases m,
{
    if m > 1 {
        lemma_months_nonneg(y, m - 1);
    }
}

/// A day count has exactly one calendar date.
pub proof fn lemma_civil_day_unique(days: int, y1: int, m1: int, d1: int, y2: int, m2: int, d2: int)
    requires
        is_civil_day(days, y1, m1, d1),
        is_civil_day(days, y2, m2, d2),
    ensures
        y1 == y2,
        m1 == m2,
        d1 == d2,
{
    lemma_months_fill_year(y1);
    lemma_months_fill_year(y2);
    lemma_months_increase(y1, m1, 13);
    lemma_months_increase(y2, m2, 13);
    lemma_months_nonneg(y1, m1);
    lemma_months_nonneg(y2, m2);
    if y1 < y2 {
        lemma_years_increase(y1, y2);
    } else if y2 < y1 {
        lemma_years_increase(y2, y1);
    }
    assert(y1 == y2);
    if m1 < m2 {
        lemma_months_increase(y1, m1, m2);
    } else if m2 < m1 {
        lemma_months_increase(y1, m2, m1);
    }
}

/// A point in time, in UTC, to the millisecond.
#[derive(Clone, Copy, Debug, PartialEq, Eq, Structural)]
pub struct UtcTime {
    pub year: u64,
    pub month: u64,
    pub day: u64,
    pub hour: u64,
    pub minute: u64,
    pub second: u64,
    pub millis: u64,
}

/// `t` is the UTC time `ms` milliseconds after the Unix epoch.
pub open spec fn utc_time_of(ms: int, t: UtcTime) -> bool {
    let secs = ms / 1000;
    let rem = secs % 86400;
    &&& is_civil_day(secs / 86400, t.year as int, t.month as int, t.day as int)
    &&& t.hour == rem / 3600
    &&& t.minute == (rem % 3600) / 60
    &&& t.second == rem % 60
    &&& t.millis == ms % 1000
}

/// An instant has exactly one UTC time.
pub proof fn lemma_utc_time_unique(ms: int, t1: UtcTime, t2: UtcTime)
    requires
        utc_time_of(ms, t1),
        utc_time_of(ms, t2),
    ensures
        t1 == t2,
{
    lemma_civil_day_unique(
        (ms / 1000) / 86400,
        t1.year as int,
        t1.month as int,
        t1.day as int,
        t2.year as int,
        t2.month as int,
        t2.day as int,
    );
}

fn is_leap_year(y: u64) -> (r: bool)
    ensures
        r == is_leap(y as int),
{
    (y % 4 == 0 && y % 100 != 0) || y % 400 == 0
}

fn year_length(y: u64) -> (r: u64)
    ensures
        r == year_days(y as int),
{
    if is_leap_year(y) {
        366
    } else {
        365
    }
}

fn month_length(y: u64, m: u64) -> (r: u64)
    ensures
        r == month_days(y as int, m as int),
{
    if m == 2 {
        if is_leap_year(y) {
            29
        } else {
            28
        }
    } else if m == 4 || m == 6 || m == 9 || m == 11 {
        30
    } else {
        31
    }
}

/// The calendar date `days` days after 1970-01-01, as year, month and day.
pub fn civil_from_days(days: u64) -> (r: (u64, u64, u64))
    ensures
        is_civil_day(days as int, r.0 as int, r.1 as int, r.2 as int),
{
    let mut y: u64 = 1970;
    let mut rem: u64 = days;
    while rem >= year_length(y)
        invariant
            1970 <= y,
            rem <= days,
            (y - 1970) * 365 <= days - rem,
            days == days_before_year(y as int) + rem,
        decreases rem,
    {
        rem = rem - year_length(y);
        y = y + 1;
    }
    let mut m: u64 = 1;
    proof {
        lemma_months_fill_year(y as int);
    }
    while rem >= month_length(y, m)
        invariant
            1 <= m <= 12,
            days == days_before_year(y as int) + days_before_month(y as int, m as int) + rem,
            days_before_month(y as int, m as int) + rem < year_days(y as int),
            days_before_month(y as int, 13) == year_days(y as int),
        decreases rem,
    {
        rem = rem - month_length(y, m);
        m = m + 1;
    }
    (y, m, rem + 1)
}

/// The UTC time `unix_ms` milliseconds after the Unix epoch.
pub fn utc_time(unix_ms: u64) -> (t: UtcTime)
    ensures
        utc_time_of(unix_ms as int, t),
{
    let secs = unix_ms / 1000;
    let rem = secs % 86400;
    let (year, month, day) = civil_from_days(secs / 86400);
    UtcTime {
        year,
        month,
        day,
        hour: rem / 3600,
        minute: (rem % 3600) / 60,
        second: rem % 60,
        millis: unix_ms % 1000,
    }
}

/// `s` padded on the left with zeros to `width` characters.
pub open spec fn zero_pad(s: Seq<char>, width: nat) -> Seq<char> {
    if s.len() >= width {
        s
    } else {
        Seq::new((width - s.len()) as nat, |i: int| '0') + s
    }
}

/// The stamp `YYYYMMDDTHHMMSSmmmZ` of a UTC time.
pub open spec fn stamp_spec(t: UtcTime) -> Seq<char> {
    zero_pad(decimal(t.year as nat), 4) + zero_pad(decimal(t.month as nat), 2) + zero_pad(
        decimal(t.day as nat),
        2,
    ) + seq!['T'] + zero_pad(decimal(t.hour as nat), 2) + zero_pad(decimal(t.minute as nat), 2)
        + zero_pad(decimal(t.second as nat), 2) + zero_pad(decimal(t.millis as nat), 3) + seq!['Z']
}

fn push_padded(out: &mut String, n: u64, width: usize)
    ensures
        final(out)@ == old(out)@ + zero_pad(decimal(n as nat), width as nat),
{
    let digits = decimal_chars(n);
    let ghost start = out@;
    if digits.len() < width {
        let fill = width - digits.len();
        let mut k: usize = 0;
        while k < fill
            invariant
                k <= fill,
                out@ == start + Seq::new(k as nat, |i: int| '0'),
            decreases fill - k,
        {
            push_char(out, '0');
            assert(out@ =~= start + Seq::new((k + 1) as nat, |i: int| '0'));
            k += 1;
        }
    }
    push_chars(out, digits.as_slice());
    assert(out@ =~= start + zero_pad(decimal(n as nat), width as nat));
}

/// The stamp `YYYYMMDDTHHMMSSmmmZ` of a UTC time, as report file names
/// carry it.
pub fn format_utc_stamp(t: &UtcTime) -> (r: String)
    ensures
        r@ == stamp_spec(*t),
{
    let mut out = String::new();
    push_padded(&mut out, t.year, 4);
    push_padded(&mut out, t.month, 2);
    push_padded(&mut out, t.day, 2);
    push_char(&mut out, 'T');
    push_padded(&mut out, t.hour, 2);
    push_padded(&mut out, t.minute, 2);
    push_padded(&mut out, t.second, 2);
    push_padded(&mut out, t.millis, 3);
    push_char(&mut out, 'Z');
    assert(out@ =~= stamp_spec(*t));
    out
}

/// The UTC stamp `YYYYMMDDTHHMMSSmmmZ` of a time in milliseconds since the
/// Unix epoch.
pub fn utc_stamp_from_unix_ms(unix_ms: u64) -> (r: String)
    ensures
        exists|t: UtcTime| utc_time_of(unix_ms as int, t) && r@ == stamp_spec(t),
{
    let t = utc_time(unix_ms);
    format_utc_stamp(&t)
}

/// The year as an MS-DOS date holds it: 1980 to 2107.
pub open spec fn dos_year(y: int) -> int {
    if y < 1980 {
        1980
    } else if y > 2107 {
        2107
    } else {
        y
    }
}

/// The MS-DOS time field: hours, minutes and seconds halved.
pub open spec fn dos_time_spec(t: UtcTime) -> int {
    t.hour * 2048 + t.minute * 32 + t.second / 2
}

/// The MS-DOS date field: years since 1980, month and day.
pub open spec fn dos_date_spec(t: UtcTime) -> int {
    (dos_year(t.year as int) - 1980) * 512 + t.month * 32 + t.day
}

/// A UTC time whose fields are in their calendar ranges.
pub open spec fn utc_fields_in_range(t: UtcTime) -> bool {
    &&& 1 <= t.month <= 12
    &&& 1 <= t.day <= 31
    &&& t.hour < 24
    &&& t.minute < 60
    &&& t.second < 60
}

/// Every UTC time of an instant has its fields in range.
pub proof fn lemma_utc_fields_in_range(ms: int, t: UtcTime)
    requires
        ms >= 0,
        utc_time_of(ms, t),
    ensures
        utc_fields_in_range(t),
{
}

fn dos_fields(t: &UtcTime) -> (r: (u16, u16))
    requires
        utc_fields_in_range(*t),
    ensures
        r.0 == dos_time_spec(*t),
        r.1 == dos_date_spec(*t),
{
    let year: u64 = if t.year < 1980 {
        1980
    } else if t.year > 2107 {
        2107
    } else {
        t.year
    };
    let time = t.hour * 2048 + t.minute * 32 + t.second / 2;
    let date = (year - 1980) * 512 + t.month * 32 + t.day;
    (time as u16, date as u16)
}

/// The MS-DOS time and date fields of a ZIP member stamped `unix_ms`
/// milliseconds after the Unix epoch.
pub fn dos_time_date(unix_ms: u64) -> (r: (u16, u16))
    ensures
        exists|t: UtcTime|
            utc_time_of(unix_ms as int, t) && r.0 == dos_time_spec(t) && r.1 == dos_date_spec(t),
{
    let t = utc_time(unix_ms);
    proof {
        lemma_utc_fields_in_range(unix_ms as int, t);
    }
    dos_fields(&t)
}

// ------------------------------------------------------------ ZIP archive

/// One archive member: its name as UTF-8 bytes, and its contents.
#[derive(Clone, Debug)]
pub struct ArchiveMember {
    pub name: Vec<u8>,
    pub bytes: Vec<u8>,
}

/// A member as its name and contents.
pub open spec fn member_view(m: ArchiveMember) -> (Seq<u8>, Seq<u8>) {
    (m.name@, m.bytes@)
}

/// The members as names and contents.
pub open spec fn members_view(ms: Seq<ArchiveMember>) -> Seq<(Seq<u8>, Seq<u8>)> {
    ms.map_values(|m: ArchiveMember| member_view(m))
}

/// A 16-bit field, least significant byte first.
pub open spec fn le16(v: int) -> Seq<u8> {
    seq![(v % 256) as u8, ((v / 256) % 256) as u8]
}

/// A 32-bit field, least significant byte first.
pub open spec fn le32(v: int) -> Seq<u8> {
    seq![
        (v % 256) as u8,
        ((v / 256) % 256) as u8,
        ((v / 65536) % 256) as u8,
        ((v / 16777216) % 256) as u8,
    ]
}

/// The fields that a member's local header and its central directory entry
/// share: version needed, UTF-8 name flag, no compression, time, date,
/// checksum, both sizes and the name's length.
pub open spec fn member_fields(m: (Seq<u8>, Seq<u8>), time: int, date: int) -> Seq<u8> {
    le16(20) + le16(0x0800) + le16(0) + le16(time) + le16(date) + le32(crc32_spec(m.1) as int) + le32(
        m.1.len() as int,
    ) + le32(m.1.len() as int) + le16(m.0.len() as int)
}

/// A member's local header, name and contents.
pub open spec fn local_record(m: (Seq<u8>, Seq<u8>), time: int, date: int) -> Seq<u8> {
    le32(0x0403_4b50) + member_fields(m, time, date) + le16(0) + m.0 + m.1
}

/// A member's central directory entry, its local header at `offset`.
pub open spec fn central_record(m: (Seq<u8>, Seq<u8>), time: int, date: int, offset: int) -> Seq<
    u8,
> {
    le32(0x0201_4b50) + le16(20) + member_fields(m, time, date) + le16(0) + le16(0) + le16(0) + le16(
        0,
    ) + le32(0) + le32(offset) + m.0
}

/// The local records of the members, one after another.
pub open spec fn local_part(ms: Seq<(Seq<u8>, Seq<u8>)>, time: int, date: int) -> Seq<u8>
    decreases ms.len(),
{
    if ms.len() == 0 {
        Seq::empty()
    } else {
        local_part(ms.drop_last(), time, date) + local_record(ms.last(), time, date)
    }
}

/// The central directory of the members.
pub open spec fn central_part(ms: Seq<(Seq<u8>, Seq<u8>)>, time: int, date: int) -> Seq<u8>
    decreases ms.len(),
{
    if ms.len() == 0 {
        Seq::empty()
    } else {
        central_part(ms.drop_last(), time, date) + central_record(
            ms.last(),
            time,
            date,
            local_part(ms.drop_last(), time, date).len() as int,
        )
    }
}

/// The end of central directory record.
pub open spec fn end_record(count: int, central_size: int, central_offset: int) -> Seq<u8> {
    le32(0x0605_4b50) + le16(0) + le16(0) + le16(count) + le16(count) + le32(central_size) + le32(
        central_offset,
    ) + le16(0)
}

/// The archive of the members, every member stored with the given time and
/// date.
pub open spec fn zip_spec(ms: Seq<(Seq<u8>, Seq<u8>)>, time: int, date: int) -> Seq<u8> {
    local_part(ms, time, date) + central_part(ms, time, date) + end_record(
        ms.len() as int,
        central_part(ms, time, date).len() as int,
        local_part(ms, time, date).len() as int,
    )
}

/// Member `i` fits the archive's 16- and 32-bit fields: its name, its size
/// and the offset of its local header.
pub open spec fn member_fits(ms: Seq<(Seq<u8>, Seq<u8>)>, i: int, time: int, date: int) -> bool {
    &&& ms[i].0.len() <= 0xFFFF
    &&& ms[i].1.len() <= 0xFFFF_FFFF
    &&& local_part(ms.take(i), time, date).len() <= 0xFFFF_FFFF
}

/// The members fit an archive without its 64-bit extensions.
pub open spec fn archive_fits(ms: Seq<(Seq<u8>, Seq<u8>)>, time: int, date: int) -> bool {
    &&& ms.len() <= 0xFFFF
    &&& forall|i: int| 0 <= i < ms.len() ==> #[trigger] member_fits(ms, i, time, date)
    &&& local_part(ms, time, date).len() <= 0xFFFF_FFFF
    &&& central_part(ms, time, date).len() <= 0xFFFF_FFFF
}

fn push_u16(out: &mut Vec<u8>, v: u16)
    ensures
        final(out)@ == old(out)@ + le16(v as int),
{
    out.push((v % 256) as u8);
    out.push(((v / 256) % 256) as u8);
    assert(out@ =~= old(out)@ + le16(v as int));
}

fn push_u32(out: &mut Vec<u8>, v: u32)
    ensures
        final(out)@ == old(out)@ + le32(v as int),
{
    out.push((v % 256) as u8);
    out.push(((v / 256) % 256) as u8);
    out.push(((v / 65536) % 256) as u8);
    out.push(((v / 16777216) % 256) as u8);
    assert(out@ =~= old(out)@ + le32(v as int));
}

fn push_bytes(out: &mut Vec<u8>, bytes: &[u8])
    ensures
        final(out)@ == old(out)@ + bytes@,
{
    let ghost start = out@;
    let mut i: usize = 0;
    while i < bytes.len()
        invariant
            i <= bytes.len(),
            out@ == start + bytes@.take(i as int),
        decreases bytes.len() - i,
    {
        out.push(bytes[i]);
        assert(out@ =~= start + bytes@.take(i + 1));
        i += 1;
    }
    assert(bytes@.take(bytes.len() as int) =~= bytes@);
}

fn push_member_fields(out: &mut Vec<u8>, m: &ArchiveMember, crc: u32, time: u16, date: u16)
    requires
        crc == crc32_spec(m.bytes@),
        m.name@.len() <= 0xFFFF,
        m.bytes@.len() <= 0xFFFF_FFFF,
    ensures
        final(out)@ == old(out)@ + member_fields(member_view(*m), time as int, date as int),
{
    let ghost start = out@;
    let size = m.bytes.len() as u32;
    push_u16(out, 20);
    push_u16(out, 0x0800);
    push_u16(out, 0);
    push_u16(out, time);
    push_u16(out, date);
    push_u32(out, crc);
    push_u32(out, size);
    push_u32(out, size);
    push_u16(out, m.name.len() as u16);
    assert(out@ =~= start + member_fields(member_view(*m), time as int, date as int));
}

fn push_local_record(out: &mut Vec<u8>, m: &ArchiveMember, crc: u32, time: u16, date: u16)
    requires
        crc == crc32_spec(m.bytes@),
        m.name@.len() <= 0xFFFF,
        m.bytes@.len() <= 0xFFFF_FFFF,
    ensures
        final(out)@ == old(out)@ + local_record(member_view(*m), time as int, date as int),
{
    let ghost start = out@;
    push_u32(out, 0x0403_4b50);
    push_member_fields(out, m, crc, time, date);
    push_u16(out, 0);
    push_bytes(out, m.name.as_slice());
    push_bytes(out, m.bytes.as_slice());
    assert(out@ =~= start + local_record(member_view(*m), time as int, date as int));
}

fn push_central_record(
    out: &mut Vec<u8>,
    m: &ArchiveMember,
    crc: u32,
    time: u16,
    date: u16,
    offset: u32,
)
    requires
        crc == crc32_spec(m.bytes@),
        m.name@.len() <= 0xFFFF,
        m.bytes@.len() <= 0xFFFF_FFFF,
    ensures
        final(out)@ == old(out)@ + central_record(
            member_view(*m),
            time as int,
            date as int,
            offset as int,
        ),
{
    let ghost start = out@;
    push_u32(out, 0x0201_4b50);
    push_u16(out, 20);
    push_member_fields(out, m, crc, time, date);
    push_u16(out, 0);
    push_u16(out, 0);
    push_u16(out, 0);
    push_u16(out, 0);
    push_u32(out, 0);
    push_u32(out, offset);
    push_bytes(out, m.name.as_slice());
    assert(out@ =~= start + central_record(member_view(*m), time as int, date as int, offset as int));
}

fn push_end_record(out: &mut Vec<u8>, count: u16, central_size: u32, central_offset: u32)
    ensures
        final(out)@ == old(out)@ + end_record(count as int, central_size as int, central_offset as int),
{
    let ghost start = out@;
    push_u32(out, 0x0605_4b50);
    push_u16(out, 0);
    push_u16(out, 0);
    push_u16(out, count);
    push_u16(out, count);
    push_u32(out, central_size);
    push_u32(out, central_offset);
    push_u16(out, 0);
    assert(out@ =~= start + end_record(count as int, central_size as int, central_offset as int));
}

proof fn lemma_parts_step(ms: Seq<(Seq<u8>, Seq<u8>)>, i: int, t: int, d: int)
    requires
        0 <= i < ms.len(),
    ensures
        local_part(ms.take(i + 1), t, d) == local_part(ms.take(i), t, d) + local_record(
            ms[i],
            t,
            d,
        ),
        central_part(ms.take(i + 1), t, d) == central_part(ms.take(i), t, d) + central_record(
            ms[i],
            t,
            d,
            local_part(ms.take(i), t, d).len() as int,
        ),
{
    assert(ms.take(i + 1).drop_last() =~= ms.take(i));
    assert(ms.take(i + 1).last() == ms[i]);
}

/// The bytes of a ZIP archive holding the members uncompressed, each with
/// the given MS-DOS time and date; `None` where a name, a member, an offset
/// or the number of members does not fit the archive's fields.
pub fn stored_zip(members: &[ArchiveMember], time: u16, date: u16) -> (r: Option<Vec<u8>>)
    ensures
        r is Some <==> archive_fits(members_view(members@), time as int, date as int),
        r matches Some(b) ==> b@ == zip_spec(members_view(members@), time as int, date as int),
{
    let ghost ms = members_view(members@);
    let ghost t = time as int;
    let ghost d = date as int;
    if members.len() > 0xFFFF {
        return None;
    }
    let mut out: Vec<u8> = Vec::new();
    let mut central: Vec<u8> = Vec::new();
    let mut i: usize = 0;
    while i < members.len()
        invariant
            i <= members.len(),
            ms == members_view(members@),
            t == time as int,
            d == date as int,
            members.len() <= 0xFFFF,
            out@ == local_part(ms.take(i as int), t, d),
            central@ == central_part(ms.take(i as int), t, d),
            forall|j: int| 0 <= j < i ==> #[trigger] member_fits(ms, j, t, d),
        decreases members.len() - i,
    {
        let m = &members[i];
        assert(ms[i as int] == member_view(*m));
        if m.name.len() > 0xFFFF || m.bytes.len() > 0xFFFF_FFFF || out.len() > 0xFFFF_FFFF {
            assert(!member_fits(ms, i as int, t, d));
            return None;
        }
        assert(member_fits(ms, i as int, t, d));
        proof {
            lemma_parts_step(ms, i as int, t, d);
        }
        let offset = out.len() as u32;
        let crc = crc32(m.bytes.as_slice());
        push_local_record(&mut out, m, crc, time, date);
        push_central_record(&mut central, m, crc, time, date, offset);
        i += 1;
    }
    assert(ms.take(members.len() as int) =~= ms);
    if out.len() > 0xFFFF_FFFF || central.len() > 0xFFFF_FFFF {
        return None;
    }
    let central_offset = out.len() as u32;
    let central_size = central.len() as u32;
    push_bytes(&mut out, central.as_slice());
    push_end_record(&mut out, members.len() as u16, central_size, central_offset);
    Some(out)
}

} // verus!
