//! Reading the command-line arguments of the tools: hexadecimal IDs, device
//! selectors, 1-based track numbers and ranges, disc-or-track targets and
//! upload formats.
use vstd::prelude::*;
use crate::chars::{digit_spec, find_seq, lemma_find_bounds, sub_chars};
use crate::device::{device_table, find_device_from, supported_device, DeviceSelector};
use crate::error::NetMDError;
use crate::text::{hex_digit, hex_digit_spec, is_whitespace, is_whitespace_spec, str_to_chars};
use crate::types::Wireformat;
use crate::wav::HeaderProbe;

verus! {

/// The value of a digit in base 10 or 16.
pub open spec fn radix_digit(c: char, radix: nat) -> Option<nat> {
    if radix == 16 {
        match hex_digit_spec(c) {
            Some(v) => Some(v as nat),
            None => None,
        }
    } else {
        digit_spec(c)
    }
}

/// The value of a run of digits in base `radix`.
pub open spec fn radix_value(s: Seq<char>, radix: nat) -> nat
    decreases s.len(),
{
    if s.len() == 0 {
        0
    } else {
        radix_value(s.drop_last(), radix) * radix + match radix_digit(s.last(), radix) {
            Some(d) => d,
            None => 0,
        }
    }
}

/// Whether every character of `s` is a digit in base `radix`.
pub open spec fn all_radix_digits(s: Seq<char>, radix: nat) -> bool {
    forall|i: int| 0 <= i < s.len() ==> #[trigger] radix_digit(s[i], radix) is Some
}

/// What `from_str_radix` gives for an unsigned type whose values lie below
/// `limit`: an optional `+`, then one or more digits worth less than `limit`.
pub open spec fn parse_unsigned_spec(s: Seq<char>, radix: nat, limit: nat) -> Option<nat> {
    let d = if s.len() > 0 && s[0] == '+' {
        s.drop_first()
    } else {
        s
    };
    if d.len() > 0 && all_radix_digits(d, radix) && radix_value(d, radix) < limit {
        Some(radix_value(d, radix))
    } else {
        None
    }
}

proof fn lemma_radix_monotone(d: Seq<char>, n: int, radix: nat)
    requires
        0 <= n <= d.len(),
        radix > 0,
    ensures
        radix_value(d.take(n), radix) <= radix_value(d, radix),
    decreases d.len() - n,
{
    if n < d.len() {
        lemma_radix_monotone(d, n + 1, radix);
        assert(d.take(n + 1).drop_last() =~= d.take(n));
        let a = radix_value(d.take(n), radix);
        assert(a <= a * radix) by (nonlinear_arith)
            requires
                radix > 0,
        ;
    } else {
        assert(d.take(n) =~= d);
    }
}

fn digit_in(c: char, radix: u64) -> (r: Option<u64>)
    requires
        radix == 10 || radix == 16,
    ensures
        match radix_digit(c, radix as nat) {
            Some(v) => r == Some(v as u64),
            None => r is None,
        },
        r matches Some(v) ==> v < radix,
{
    if radix == 16 {
        match hex_digit(c) {
            Some(v) => Some(v as u64),
            None => None,
        }
    } else if '0' <= c && c <= '9' {
        Some((c as u32 - '0' as u32) as u64)
    } else {
        None
    }
}

/// Parses an unsigned number in base 10 or 16 below `limit` (see
/// [`parse_unsigned_spec`]).
pub fn parse_unsigned(s: &[char], radix: u64, limit: u64) -> (r: Option<u64>)
    requires
        radix == 10 || radix == 16,
        0 < limit <= 0x1_0000_0000,
    ensures
        match parse_unsigned_spec(s@, radix as nat, limit as nat) {
            Some(v) => r == Some(v as u64),
            None => r is None,
        },
{
    let start: usize = if s.len() > 0 && s[0] == '+' {
        1
    } else {
        0
    };
    let ghost d = s@.skip(start as int);
    assert(d =~= (if s@.len() > 0 && s@[0] == '+' { s@.drop_first() } else { s@ }));
    if start == s.len() {
        return None;
    }
    let mut value: u64 = 0;
    let mut i: usize = start;
    while i < s.len()
        invariant
            radix == 10 || radix == 16,
            0 < limit <= 0x1_0000_0000,
            start <= i <= s@.len(),
            d == s@.skip(start as int),
            d == (if s@.len() > 0 && s@[0] == '+' { s@.drop_first() } else { s@ }),
            value < limit,
            value == radix_value(d.take(i - start), radix as nat),
            all_radix_digits(d.take(i - start), radix as nat),
        decreases s@.len() - i,
    {
        let c = s[i];
        assert(d.take(i + 1 - start).drop_last() =~= d.take(i - start));
        assert(d[i - start] == c);
        let v = match digit_in(c, radix) {
            Some(v) => v,
            None => {
                assert(!all_radix_digits(d, radix as nat)) by {
                    assert(radix_digit(d[i - start], radix as nat) is None);
                }
                return None;
            },
        };
        assert(value * radix + v < 0x1_0000_0000 * 16 + 16) by (nonlinear_arith)
            requires
                value < 0x1_0000_0000,
                radix <= 16,
                v < radix,
        ;
        value = value * radix + v;
        i = i + 1;
        assert(all_radix_digits(d.take(i - start), radix as nat)) by {
            assert forall|j: int| 0 <= j < i - start implies #[trigger] radix_digit(
                d.take(i - start)[j],
                radix as nat,
            ) is Some by {
                if j < i - 1 - start {
                    assert(d.take(i - start)[j] == d.take(i - 1 - start)[j]);
                }
            }
        }
        if value >= limit {
            proof {
                lemma_radix_monotone(d, i - start, radix as nat);
            }
            return None;
        }
    }
    assert(d.take(s@.len() - start) =~= d);
    Some(value)
}

/// A hexadecimal ID without its `0x` or `0X` prefix.
pub open spec fn strip_hex_prefix(s: Seq<char>) -> Seq<char> {
    if s.len() >= 2 && s[0] == '0' && (s[1] == 'x' || s[1] == 'X') {
        s.skip(2)
    } else {
        s
    }
}

/// Parses a 16-bit hexadecimal ID, with or without a `0x` prefix.
pub fn parse_hex_u16(value: &str) -> (r: Result<u16, NetMDError>)
    ensures
        match parse_unsigned_spec(strip_hex_prefix(value@), 16, 0x10000) {
            Some(v) => r == Ok::<u16, NetMDError>(v as u16),
            None => r == Err::<u16, NetMDError>(NetMDError::InvalidInput),
        },
{
    let s = str_to_chars(value);
    let n = s.len();
    let body = if n >= 2 && s[0] == '0' && (s[1] == 'x' || s[1] == 'X') {
        sub_chars(s.as_slice(), 2, n)
    } else {
        sub_chars(s.as_slice(), 0, n)
    };
    assert(body@ =~= strip_hex_prefix(value@));
    match parse_unsigned(body.as_slice(), 16, 0x10000) {
        Some(v) => Ok(v as u16),
        None => Err(NetMDError::InvalidInput),
    }
}

/// The 0-based track of a 1-based track number: a decimal `u32`, not zero,
/// whose predecessor fits in 16 bits.
pub open spec fn track_index_spec(s: Seq<char>) -> Option<u16> {
    match parse_unsigned_spec(s, 10, 0x1_0000_0000) {
        Some(n) => if n == 0 || n - 1 >= 0x10000 {
            None
        } else {
            Some((n - 1) as u16)
        },
        None => None,
    }
}

fn track_index_chars(s: &[char]) -> (r: Option<u16>)
    ensures
        r == track_index_spec(s@),
{
    match parse_unsigned(s, 10, 0x1_0000_0000) {
        Some(n) => {
            if n == 0 || n - 1 >= 0x10000 {
                None
            } else {
                Some((n - 1) as u16)
            }
        },
        None => None,
    }
}

/// Parses a 1-based track number (as listings show them) into a 0-based index.
pub fn parse_track_index(s: &str) -> (r: Result<u16, NetMDError>)
    ensures
        match track_index_spec(s@) {
            Some(t) => r == Ok::<u16, NetMDError>(t),
            None => r == Err::<u16, NetMDError>(NetMDError::InvalidInput),
        },
{
    let c = str_to_chars(s);
    match track_index_chars(c.as_slice()) {
        Some(t) => Ok(t),
        None => Err(NetMDError::InvalidInput),
    }
}

/// `s` without leading white space.
pub open spec fn trim_start_spec(s: Seq<char>) -> Seq<char>
    decreases s.len(),
{
    if s.len() > 0 && is_whitespace_spec(s[0]) {
        trim_start_spec(s.drop_first())
    } else {
        s
    }
}

/// `s` without trailing white space.
pub open spec fn trim_end_spec(s: Seq<char>) -> Seq<char>
    decreases s.len(),
{
    if s.len() > 0 && is_whitespace_spec(s.last()) {
        trim_end_spec(s.drop_last())
    } else {
        s
    }
}

/// `s` without leading and trailing white space, as `str::trim` gives it.
pub open spec fn trim_spec(s: Seq<char>) -> Seq<char> {
    trim_end_spec(trim_start_spec(s))
}

/// Removes leading and trailing white space (see [`trim_spec`]).
pub fn trim_chars(s: &[char]) -> (r: Vec<char>)
    ensures
        r@ == trim_spec(s@),
{
    let n = s.len();
    let mut a: usize = 0;
    assert(s@.skip(0) =~= s@);
    while a < n && is_whitespace(s[a])
        invariant
            n == s@.len(),
            a <= n,
            trim_start_spec(s@) == trim_start_spec(s@.skip(a as int)),
        decreases n - a,
    {
        assert(s@.skip(a as int).drop_first() =~= s@.skip(a + 1));
        a = a + 1;
    }
    let ghost t = s@.skip(a as int);
    assert(trim_start_spec(t) == t);
    let mut b: usize = n;
    while b > a && is_whitespace(s[b - 1])
        invariant
            n == s@.len(),
            a <= b <= n,
            t == s@.skip(a as int),
            trim_end_spec(t) == trim_end_spec(s@.subrange(a as int, b as int)),
        decreases b,
    {
        assert(s@.subrange(a as int, b as int).drop_last() =~= s@.subrange(a as int, b - 1));
        b = b - 1;
    }
    assert(trim_end_spec(s@.subrange(a as int, b as int)) == s@.subrange(a as int, b as int));
    assert(t =~= s@.subrange(a as int, n as int));
    sub_chars(s, a, b)
}

/// A 1-based track range `"first-last"` or `"n"` as a 0-based inclusive
/// pair; each number may be surrounded by white space, and the range may
/// not run backwards.
pub open spec fn track_range_spec(s: Seq<char>) -> Option<(u16, u16)> {
    match find_seq(s, seq!['-']) {
        Some(i) => match (track_index_spec(trim_spec(s.take(i))), track_index_spec(trim_spec(s.skip(i + 1)))) {
            (Some(a), Some(b)) => if a > b {
                None
            } else {
                Some((a, b))
            },
            _ => None,
        },
        None => match track_index_spec(trim_spec(s)) {
            Some(a) => Some((a, a)),
            None => None,
        },
    }
}

/// Parses a 1-based track range (see [`track_range_spec`]).
pub fn parse_track_range(s: &str) -> (r: Result<(u16, u16), NetMDError>)
    ensures
        match track_range_spec(s@) {
            Some(p) => r == Ok::<(u16, u16), NetMDError>(p),
            None => r == Err::<(u16, u16), NetMDError>(NetMDError::InvalidInput),
        },
{
    let c = str_to_chars(s);
    let n = c.len();
    let dash: Vec<char> = vec!['-'];
    assert(dash@ =~= seq!['-']);
    assert(c@.skip(0) =~= c@);
    let found = crate::chars::find_from(c.as_slice(), 0, dash.as_slice());
    proof {
        lemma_find_bounds(c@, seq!['-']);
    }
    match found {
        Some(i) => {
            let lo = trim_chars(sub_chars(c.as_slice(), 0, i).as_slice());
            let hi = trim_chars(sub_chars(c.as_slice(), i + 1, n).as_slice());
            assert(c@.subrange(0, i as int) =~= c@.take(i as int));
            assert(c@.subrange(i + 1, n as int) =~= c@.skip(i + 1));
            let a = track_index_chars(lo.as_slice());
            let b = track_index_chars(hi.as_slice());
            match (a, b) {
                (Some(a), Some(b)) => {
                    if a > b {
                        Err(NetMDError::InvalidInput)
                    } else {
                        Ok((a, b))
                    }
                },
                _ => Err(NetMDError::InvalidInput),
            }
        },
        None => {
            let t = trim_chars(c.as_slice());
            match track_index_chars(t.as_slice()) {
                Some(a) => Ok((a, a)),
                None => Err(NetMDError::InvalidInput),
            }
        },
    }
}

/// A `VID:PID` device selector: two hexadecimal IDs around the first colon,
/// naming a supported model.
pub open spec fn device_selector_spec(s: Seq<char>) -> Result<DeviceSelector, NetMDError> {
    match find_seq(s, seq![':']) {
        None => Err(NetMDError::InvalidInput),
        Some(i) => match (
            parse_unsigned_spec(strip_hex_prefix(s.take(i)), 16, 0x10000),
            parse_unsigned_spec(strip_hex_prefix(s.skip(i + 1)), 16, 0x10000),
        ) {
            (Some(v), Some(p)) => if find_device_from(device_table(), v as u16, p as u16, 0) is None {
                Err(NetMDError::UnsupportedDevice { vendor_id: v as u16, product_id: p as u16 })
            } else {
                Ok(DeviceSelector { vendor_id: v as u16, product_id: p as u16 })
            },
            _ => Err(NetMDError::InvalidInput),
        },
    }
}

fn hex_u16_chars(s: &[char]) -> (r: Option<u16>)
    ensures
        match parse_unsigned_spec(strip_hex_prefix(s@), 16, 0x10000) {
            Some(v) => r == Some(v as u16),
            None => r is None,
        },
{
    let n = s.len();
    let body = if n >= 2 && s[0] == '0' && (s[1] == 'x' || s[1] == 'X') {
        sub_chars(s, 2, n)
    } else {
        sub_chars(s, 0, n)
    };
    assert(body@ =~= strip_hex_prefix(s@));
    match parse_unsigned(body.as_slice(), 16, 0x10000) {
        Some(v) => Some(v as u16),
        None => None,
    }
}

/// Parses a `VID:PID` device selector (see [`device_selector_spec`]).
pub fn parse_device_selector(value: &str) -> (r: Result<DeviceSelector, NetMDError>)
    ensures
        r == device_selector_spec(value@),
{
    let c = str_to_chars(value);
    let n = c.len();
    let colon: Vec<char> = vec![':'];
    assert(colon@ =~= seq![':']);
    assert(c@.skip(0) =~= c@);
    let found = crate::chars::find_from(c.as_slice(), 0, colon.as_slice());
    let i = match found {
        Some(i) => i,
        None => {
            return Err(NetMDError::InvalidInput);
        },
    };
    let lo = sub_chars(c.as_slice(), 0, i);
    let hi = sub_chars(c.as_slice(), i + 1, n);
    assert(c@.subrange(0, i as int) =~= c@.take(i as int));
    assert(c@.subrange(i + 1, n as int) =~= c@.skip(i + 1));
    match (hex_u16_chars(lo.as_slice()), hex_u16_chars(hi.as_slice())) {
        (Some(v), Some(p)) => {
            if supported_device(v, p).is_none() {
                Err(NetMDError::UnsupportedDevice { vendor_id: v, product_id: p })
            } else {
                Ok(DeviceSelector::new(v, p))
            }
        },
        _ => Err(NetMDError::InvalidInput),
    }
}

/// What an erase or rename addresses: the disc, or a 0-based track.
#[derive(Debug, Clone, Copy, PartialEq, Eq, Structural)]
pub enum Target {
    Disc,
    Track(u16),
}

/// `"disc"` names the disc; anything else must be a 1-based track number.
pub open spec fn target_spec(s: Seq<char>) -> Option<Target> {
    if s == "disc"@ {
        Some(Target::Disc)
    } else {
        match track_index_spec(s) {
            Some(t) => Some(Target::Track(t)),
            None => None,
        }
    }
}

/// Reads an erase or rename target (see [`target_spec`]).
pub fn parse_target(s: &str) -> (r: Result<Target, NetMDError>)
    ensures
        match target_spec(s@) {
            Some(t) => r == Ok::<Target, NetMDError>(t),
            None => r == Err::<Target, NetMDError>(NetMDError::InvalidInput),
        },
{
    let c = str_to_chars(s);
    let disc: Vec<char> = vec!['d', 'i', 's', 'c'];
    proof {
        reveal_strlit("disc");
    }
    assert(disc@ =~= "disc"@);
    if crate::disc::chars_equal(c.as_slice(), disc.as_slice()) {
        return Ok(Target::Disc);
    }
    match track_index_chars(c.as_slice()) {
        Some(t) => Ok(Target::Track(t)),
        None => Err(NetMDError::InvalidInput),
    }
}

/// How an upload is encoded: PCM for SP, or ATRAC3 at a bit rate (with the
/// LP4 variant of the encoder for LP4).
#[derive(Debug, Clone, Copy, PartialEq, Eq, Structural)]
pub enum UploadPlan {
    Pcm,
    Atrac3 { lp4: bool, bitrate_kbps: u32, format: Wireformat },
}

/// The plan of a requested format name (already lower-cased).
pub open spec fn upload_plan_spec(requested: Seq<char>) -> Option<UploadPlan> {
    if requested == "sp"@ {
        Some(UploadPlan::Pcm)
    } else if requested == "lp2"@ {
        Some(UploadPlan::Atrac3 { lp4: false, bitrate_kbps: 128, format: Wireformat::Lp2 })
    } else if requested == "lp105"@ {
        Some(UploadPlan::Atrac3 { lp4: false, bitrate_kbps: 102, format: Wireformat::L105kbps })
    } else if requested == "lp4"@ {
        Some(UploadPlan::Atrac3 { lp4: true, bitrate_kbps: 64, format: Wireformat::Lp4 })
    } else {
        None
    }
}

/// The plan of a requested format name: `sp`, `lp2`, `lp105` or `lp4`.
pub fn upload_plan(requested: &str) -> (r: Result<UploadPlan, NetMDError>)
    ensures
        match upload_plan_spec(requested@) {
            Some(p) => r == Ok::<UploadPlan, NetMDError>(p),
            None => r == Err::<UploadPlan, NetMDError>(NetMDError::InvalidInput),
        },
{
    let c = str_to_chars(requested);
    let sp: Vec<char> = vec!['s', 'p'];
    let lp2: Vec<char> = vec!['l', 'p', '2'];
    let lp105: Vec<char> = vec!['l', 'p', '1', '0', '5'];
    let lp4: Vec<char> = vec!['l', 'p', '4'];
    proof {
        reveal_strlit("sp");
        reveal_strlit("lp2");
        reveal_strlit("lp105");
        reveal_strlit("lp4");
    }
    assert(sp@ =~= "sp"@);
    assert(lp2@ =~= "lp2"@);
    assert(lp105@ =~= "lp105"@);
    assert(lp4@ =~= "lp4"@);
    if crate::disc::chars_equal(c.as_slice(), sp.as_slice()) {
        Ok(UploadPlan::Pcm)
    } else if crate::disc::chars_equal(c.as_slice(), lp2.as_slice()) {
        Ok(UploadPlan::Atrac3 { lp4: false, bitrate_kbps: 128, format: Wireformat::Lp2 })
    } else if crate::disc::chars_equal(c.as_slice(), lp105.as_slice()) {
        Ok(UploadPlan::Atrac3 { lp4: false, bitrate_kbps: 102, format: Wireformat::L105kbps })
    } else if crate::disc::chars_equal(c.as_slice(), lp4.as_slice()) {
        Ok(UploadPlan::Atrac3 { lp4: true, bitrate_kbps: 64, format: Wireformat::Lp4 })
    } else {
        Err(NetMDError::InvalidInput)
    }
}

/// The title of an uploaded file: its tag title, trimmed, unless that is
/// missing or blank; then the file name without extension; then `"track"`.
pub open spec fn upload_title_spec(tag: Option<Seq<char>>, stem: Option<Seq<char>>) -> Seq<char> {
    match tag {
        Some(t) if trim_spec(t).len() > 0 => trim_spec(t),
        _ => match stem {
            Some(s) => s,
            None => "track"@,
        },
    }
}

/// Picks the title of an uploaded file (see [`upload_title_spec`]).
pub fn upload_title(tag: Option<&str>, stem: Option<&str>) -> (r: String)
    ensures
        r@ == upload_title_spec(match tag {
            Some(t) => Some(t@),
            None => None,
        }, match stem {
            Some(s) => Some(s@),
            None => None,
        }),
{
    if let Some(t) = tag {
        let c = str_to_chars(t);
        let trimmed = trim_chars(c.as_slice());
        if trimmed.len() > 0 {
            return crate::text::chars_to_string(trimmed.as_slice());
        }
    }
    match stem {
        Some(s) => String::from_str(s),
        None => String::from_str("track"),
    }
}

/// Percent of an upload done: `written * 100 / total`, the product held at
/// the largest `u64`, and 0 for an empty upload.
pub fn progress_percent(written: u64, total: u64) -> (p: u64)
    ensures
        total == 0 ==> p == 0,
        total > 0 ==> p == (if written * 100 > u64::MAX { u64::MAX as int } else { written * 100 }) / (total as int),
{
    let scaled = match written.checked_mul(100) {
        Some(v) => v,
        None => u64::MAX,
    };
    if total == 0 {
        0
    } else {
        scaled / total
    }
}

/// What the header probe says of a file being ATRAC3: the answer, or `None`
/// when only a full parse can tell.
pub fn probe_verdict(probe: HeaderProbe) -> (r: Option<bool>)
    ensures
        match probe {
            HeaderProbe::Found(f) => r == Some(f is Some),
            HeaderProbe::NotWav => r == Some(false),
            HeaderProbe::Inconclusive => r is None,
        },
{
    match probe {
        HeaderProbe::Found(f) => Some(f.is_some()),
        HeaderProbe::NotWav => Some(false),
        HeaderProbe::Inconclusive => None,
    }
}

/// Whether a folder upload failed as a whole: files were found and none of
/// them went up.
pub fn all_uploads_failed(found: usize, succeeded: usize) -> (b: bool)
    ensures
        b == (succeeded == 0 && found > 0),
{
    succeeded == 0 && found > 0
}

} // verus!
