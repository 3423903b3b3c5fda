//! The addresses of the files in the remote archive.

use crate::text::chars_of;
use crate::time::{is_before, is_valid, Civil, Timestamp};
use vstd::pervasive::unreached;
use vstd::prelude::*;
use vstd::string::StringExecFns;

verus! {

/// The address that every file of the archive starts with.
pub const BASE_URL: &'static str = "https://hwp-viz.gsd.esrl.noaa.gov/wave1d/data/archive/";

/// The time after which the archive files its runs under version 4.0.
pub open spec fn nbm_4_start() -> Civil {
    Civil { year: 2020, month: 9, day: 23, hour: 0, minute: 0, second: 0 }
}

/// `s` with each space replaced by `%20`.
pub open spec fn escape_spaces(s: Seq<char>) -> Seq<char>
    decreases s.len(),
{
    if s.len() == 0 {
        Seq::empty()
    } else if s.last() == ' ' {
        escape_spaces(s.drop_last()) + seq!['%', '2', '0']
    } else {
        escape_spaces(s.drop_last()).push(s.last())
    }
}

/// The character of the digit `d`.
pub open spec fn digit_char(d: int) -> char {
    ((0x30 + d) as u8) as char
}

/// `n` in decimal, with zeros in front where it has fewer than `width` digits.
pub open spec fn decimal_digits(n: nat, width: nat) -> Seq<char>
    decreases n + width,
{
    if n < 10 && width <= 1 {
        seq![digit_char(n as int)]
    } else {
        decimal_digits(
            n / 10,
            if width > 0 {
                (width - 1) as nat
            } else {
                0
            },
        ).push(digit_char((n % 10) as int))
    }
}

/// A year as the archive writes it: four digits or more, with zeros in front of a
/// short one, and a minus sign in place of the first zero before the year 0.
pub open spec fn year_text(year: int) -> Seq<char> {
    if year >= 0 {
        decimal_digits(year as nat, 4)
    } else {
        seq!['-'] + decimal_digits((-year) as nat, 3)
    }
}

/// The directory of the archive's version at `init_time`: `NBM4.0` for a run after
/// `nbm_4_start()`, `NBM` for one at that time or before.
pub open spec fn schema(init_time: Civil) -> Seq<char> {
    if is_before(nbm_4_start(), init_time) {
        "NBM4.0"@
    } else {
        "NBM"@
    }
}

/// The address of the file `fname` of the run that started at `init_time`.
pub open spec fn download_url(fname: Seq<char>, init_time: Civil) -> Seq<char> {
    BASE_URL@ + year_text(init_time.year) + seq!['/'] + decimal_digits(init_time.month as nat, 2)
        + seq!['/'] + decimal_digits(init_time.day as nat, 2) + seq!['/'] + schema(init_time)
        + seq!['/'] + decimal_digits(init_time.hour as nat, 2) + seq!['/'] + escape_spaces(fname)
}

/// `fname` as it stands in an address: each space becomes `%20`.
pub fn format_file_name_for_download(fname: &str) -> (r: String)
    ensures
        r@ == escape_spaces(fname@),
{
    let chars = chars_of(fname);
    let mut r = String::new();
    let mut i: usize = 0;
    assert(chars@.take(0) =~= Seq::empty());
    while i < chars.len()
        invariant
            i <= chars.len(),
            r@ == escape_spaces(chars@.take(i as int)),
        decreases chars.len() - i,
    {
        assert(chars@.take(i + 1).drop_last() =~= chars@.take(i as int));
        let ghost before = r@;
        if chars[i] == ' ' {
            r.push('%');
            r.push('2');
            r.push('0');
            assert(r@ =~= before + seq!['%', '2', '0']);
        } else {
            r.push(chars[i]);
        }
        i += 1;
    }
    assert(chars@.take(chars@.len() as int) =~= chars@);
    r
}

fn push_decimal(out: &mut String, n: u32, width: u32)
    ensures
        final(out)@ == old(out)@ + decimal_digits(n as nat, width as nat),
    decreases n + width,
{
    let ghost before = out@;
    if n < 10 && width <= 1 {
        let d: u8 = n as u8;
        out.push((0x30 + d) as char);
        assert(out@ =~= before + decimal_digits(n as nat, width as nat));
    } else {
        let rest: u32 = if width > 0 {
            width - 1
        } else {
            0
        };
        push_decimal(out, n / 10, rest);
        let d: u8 = (n % 10) as u8;
        out.push((0x30 + d) as char);
        assert(out@ =~= before + decimal_digits(n as nat, width as nat));
    }
}

fn push_year(out: &mut String, year: i32)
    requires
        i32::MIN < year,
    ensures
        final(out)@ == old(out)@ + year_text(year as int),
{
    let ghost before = out@;
    if year >= 0 {
        push_decimal(out, year as u32, 4);
    } else {
        out.push('-');
        push_decimal(out, (-year) as u32, 3);
        assert(out@ =~= before + year_text(year as int));
    }
}

/// The start of version 4.0 of the archive.
fn nbm_4_starts() -> (r: Timestamp)
    ensures
        r@ == nbm_4_start(),
{
    match Timestamp::from_ymd_hms(2020, 9, 23, 0, 0, 0) {
        Some(t) => t,
        None => {
            assert(is_valid(nbm_4_start()));
            unreached()
        },
    }
}

/// The directory of the archive's version at `init_time`.
pub fn archive_schema(init_time: Timestamp) -> (r: &'static str)
    ensures
        r@ == schema(init_time@),
        is_before(nbm_4_start(), init_time@) ==> r@ == "NBM4.0"@,
        !is_before(nbm_4_start(), init_time@) ==> r@ == "NBM"@,
{
    if init_time.is_after(&nbm_4_starts()) {
        "NBM4.0"
    } else {
        "NBM"
    }
}

/// The address of the file `fname` of the run that started at `init_time`.
pub fn build_download_url(fname: &str, init_time: Timestamp) -> (url: String)
    ensures
        url@ == download_url(fname@, init_time@),
{
    let mut url = String::from_str(BASE_URL);
    push_year(&mut url, init_time.year());
    url.push('/');
    push_decimal(&mut url, init_time.month(), 2);
    url.push('/');
    push_decimal(&mut url, init_time.day(), 2);
    url.push('/');
    url.append(archive_schema(init_time));
    url.push('/');
    push_decimal(&mut url, init_time.hour(), 2);
    url.push('/');
    let url_fname = format_file_name_for_download(fname);
    url.append(url_fname.as_str());
    assert(url@ =~= download_url(fname@, init_time@));
    url
}

/// A file name holds no space once it is escaped.
pub proof fn lemma_escaped_name_has_no_space(s: Seq<char>)
    ensures
        forall|i: int| 0 <= i < escape_spaces(s).len() ==> escape_spaces(s)[i] != ' ',
        s.len() <= escape_spaces(s).len() <= 3 * s.len(),
    decreases s.len(),
{
    if s.len() > 0 {
        lemma_escaped_name_has_no_space(s.drop_last());
    }
}

} // verus!
