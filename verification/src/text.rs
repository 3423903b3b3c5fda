//! Character and string helpers shared by the other modules.

use vstd::prelude::*;

verus! {

/// `String::push` appends one character at the end of the string.
pub assume_specification[ String::push ](s: &mut String, ch: char)
    ensures
        final(s)@ == old(s)@.push(ch),
;

/// The characters of `s`, in order.
pub fn chars_of(s: &str) -> (v: Vec<char>)
    ensures
        v@ == s@,
{
    let mut v: Vec<char> = Vec::new();
    for c in it: s.chars()
        invariant
            it.seq() == s@,
            v@ == it.seq().take(it.index() as int),
    {
        v.push(c);
        assert(it.seq().take(it.index() + 1) == it.seq().take(it.index() as int).push(c));
    }
    assert(s@.take(s@.len() as int) == s@);
    v
}

/// The string made of the characters of `v`, in order.
pub fn string_of(v: &Vec<char>) -> (s: String)
    ensures
        s@ == v@,
{
    let mut s = String::new();
    let mut i: usize = 0;
    while i < v.len()
        invariant
            i <= v.len(),
            s@ == v@.take(i as int),
        decreases v.len() - i,
    {
        s.push(v[i]);
        i += 1;
        assert(v@.take(i as int) == v@.take(i - 1).push(v@[i - 1]));
    }
    s
}


/// Whether `c` is an ASCII capital letter.
pub open spec fn is_ascii_upper(c: char) -> bool {
    0x41 <= c as u32 <= 0x5a
}

/// `c` with an ASCII capital letter replaced by its small letter.
pub open spec fn fold_case(c: char) -> char {
    if is_ascii_upper(c) {
        ((c as u8 + 32) as u8) as char
    } else {
        c
    }
}

/// `s` with every ASCII capital letter replaced by its small letter.
pub open spec fn lower(s: Seq<char>) -> Seq<char> {
    Seq::new(s.len(), |i: int| fold_case(s[i]))
}

/// Whether `needle` occurs in `hay` starting at index `i`.
pub open spec fn occurs_at(hay: Seq<char>, needle: Seq<char>, i: int) -> bool {
    &&& 0 <= i
    &&& i + needle.len() <= hay.len()
    &&& forall|j: int| 0 <= j < needle.len() ==> hay[i + j] == needle[j]
}

/// Whether `needle` occurs somewhere in `hay` as a contiguous run.
pub open spec fn contains(hay: Seq<char>, needle: Seq<char>) -> bool {
    exists|i: int| occurs_at(hay, needle, i)
}

/// `c` with an ASCII capital letter replaced by its small letter.
pub fn lower_char(c: char) -> (r: char)
    ensures
        r == fold_case(c),
{
    let n: u32 = c as u32;
    if 0x41 <= n && n <= 0x5a {
        let b: u8 = c as u8;
        (b + 32) as char
    } else {
        c
    }
}

/// A copy of `v` with ASCII capitals folded to small letters.
pub fn lowered(v: &Vec<char>) -> (r: Vec<char>)
    ensures
        r@ == lower(v@),
{
    let mut r: Vec<char> = Vec::new();
    let mut i: usize = 0;
    while i < v.len()
        invariant
            i <= v.len(),
            r@.len() == i,
            forall|j: int| 0 <= j < i ==> r@[j] == fold_case(v@[j]),
        decreases v.len() - i,
    {
        r.push(lower_char(v[i]));
        i += 1;
    }
    assert(r@ =~= lower(v@));
    r
}

/// Whether `a` and `b` hold the same characters.
pub fn same_chars(a: &Vec<char>, b: &Vec<char>) -> (r: bool)
    ensures
        r == (a@ == b@),
{
    if a.len() != b.len() {
        return false;
    }
    let mut i: usize = 0;
    while i < a.len()
        invariant
            i <= a.len(),
            a.len() == b.len(),
            forall|j: int| 0 <= j < i ==> a@[j] == b@[j],
        decreases a.len() - i,
    {
        if a[i] != b[i] {
            return false;
        }
        i += 1;
    }
    assert(a@ =~= b@);
    true
}

fn occurs_here(hay: &Vec<char>, needle: &Vec<char>, i: usize) -> (r: bool)
    requires
        i + needle.len() <= hay.len(),
    ensures
        r == occurs_at(hay@, needle@, i as int),
{
    let mut j: usize = 0;
    while j < needle.len()
        invariant
            j <= needle.len(),
            i + needle.len() <= hay.len(),
            forall|k: int| 0 <= k < j ==> hay@[i + k] == needle@[k],
        decreases needle.len() - j,
    {
        if hay[i + j] != needle[j] {
            return false;
        }
        j += 1;
    }
    true
}

/// Whether `needle` occurs in `hay`.
pub fn has_infix(hay: &Vec<char>, needle: &Vec<char>) -> (r: bool)
    ensures
        r == contains(hay@, needle@),
{
    if needle.len() > hay.len() {
        return false;
    }
    let last: usize = hay.len() - needle.len();
    let mut i: usize = 0;
    while i <= last
        invariant
            i <= last + 1,
            last == hay.len() - needle.len(),
            forall|k: int| 0 <= k < i ==> !occurs_at(hay@, needle@, k),
        decreases last + 1 - i,
    {
        if occurs_here(hay, needle, i) {
            return true;
        }
        i += 1;
    }
    false
}


/// Whether `c` has the Unicode property White_Space.
pub open spec fn is_space(c: char) -> bool {
    let n = c as u32;
    ||| 0x09 <= n <= 0x0d
    ||| n == 0x20
    ||| n == 0x85
    ||| n == 0xa0
    ||| n == 0x1680
    ||| 0x2000 <= n <= 0x200a
    ||| n == 0x2028
    ||| n == 0x2029
    ||| n == 0x202f
    ||| n == 0x205f
    ||| n == 0x3000
}

/// `s` without its leading white space.
pub open spec fn trim_start(s: Seq<char>) -> Seq<char>
    decreases s.len(),
{
    if s.len() > 0 && is_space(s[0]) {
        trim_start(s.drop_first())
    } else {
        s
    }
}

/// `s` without its trailing white space.
pub open spec fn trim_end(s: Seq<char>) -> Seq<char>
    decreases s.len(),
{
    if s.len() > 0 && is_space(s.last()) {
        trim_end(s.drop_last())
    } else {
        s
    }
}

/// `s` without the white space around it.
pub open spec fn trim(s: Seq<char>) -> Seq<char> {
    trim_end(trim_start(s))
}

/// Whether `c` is white space.
pub fn is_space_char(c: char) -> (r: bool)
    ensures
        r == is_space(c),
{
    let n: u32 = c as u32;
    (0x09 <= n && n <= 0x0d) || n == 0x20 || n == 0x85 || n == 0xa0 || n == 0x1680 || (0x2000 <= n
        && n <= 0x200a) || n == 0x2028 || n == 0x2029 || n == 0x202f || n == 0x205f || n == 0x3000
}

/// A copy of `v` without the white space around it.
pub fn trimmed(v: &Vec<char>) -> (r: Vec<char>)
    ensures
        r@ == trim(v@),
{
    let mut start: usize = 0;
    assert(v@.skip(0) =~= v@);
    while start < v.len() && is_space_char(v[start])
        invariant
            start <= v.len(),
            trim_start(v@) == trim_start(v@.skip(start as int)),
        decreases v.len() - start,
    {
        assert(v@.skip(start as int).drop_first() =~= v@.skip(start + 1));
        start += 1;
    }
    assert(trim_start(v@) == v@.skip(start as int));
    let mut end: usize = v.len();
    assert(v@.subrange(start as int, end as int) =~= v@.skip(start as int));
    while end > start && is_space_char(v[end - 1])
        invariant
            start <= end <= v.len(),
            trim(v@) == trim_end(v@.subrange(start as int, end as int)),
        decreases end - start,
    {
        assert(v@.subrange(start as int, end as int).drop_last() =~= v@.subrange(
            start as int,
            end - 1,
        ));
        end -= 1;
    }
    assert(trim(v@) == v@.subrange(start as int, end as int));
    let mut r: Vec<char> = Vec::new();
    let mut i: usize = start;
    while i < end
        invariant
            start <= i <= end <= v.len(),
            r@ == v@.subrange(start as int, i as int),
        decreases end - i,
    {
        r.push(v[i]);
        i += 1;
        assert(v@.subrange(start as int, i as int) =~= v@.subrange(start as int, i - 1).push(
            v@[i - 1],
        ));
    }
    r
}


/// Whether `c` is one of the digits `0` to `9`.
pub open spec fn is_digit(c: char) -> bool {
    0x30 <= c as u32 <= 0x39
}

/// Whether `c` is `+` or `-`.
pub open spec fn is_sign(c: char) -> bool {
    c == '+' || c == '-'
}

/// The number of digits that `s` starts with.
pub open spec fn leading_digits(s: Seq<char>) -> nat
    decreases s.len(),
{
    if s.len() > 0 && is_digit(s[0]) {
        1 + leading_digits(s.drop_first())
    } else {
        0
    }
}

/// `s` without the sign it may start with.
pub open spec fn unsigned(s: Seq<char>) -> Seq<char> {
    if s.len() > 0 && is_sign(s[0]) {
        s.drop_first()
    } else {
        s
    }
}

/// Whether `s` is an exponent: `e` or `E`, an optional sign, and one or more digits.
pub open spec fn is_exponent(s: Seq<char>) -> bool {
    &&& s.len() > 0
    &&& fold_case(s[0]) == 'e'
    &&& unsigned(s.drop_first()).len() > 0
    &&& leading_digits(unsigned(s.drop_first())) == unsigned(s.drop_first()).len()
}

/// Whether `s` is an unsigned decimal number: digits, optionally a point and more
/// digits, with at least one digit before or after the point, optionally followed
/// by an exponent.
pub open spec fn is_number(s: Seq<char>) -> bool {
    let whole = leading_digits(s);
    let after_whole = s.skip(whole as int);
    let has_point = after_whole.len() > 0 && after_whole[0] == '.';
    let after_point = if has_point {
        after_whole.drop_first()
    } else {
        after_whole
    };
    let fraction = if has_point {
        leading_digits(after_point)
    } else {
        0
    };
    let rest = after_point.skip(fraction as int);
    whole + fraction > 0 && (rest.len() == 0 || is_exponent(rest))
}

/// Whether `s` is the text of a real number in Rust's grammar for them: an optional
/// sign followed by `inf`, `infinity` or `nan` in any mix of cases, or by a decimal
/// number. White space is not part of the grammar.
pub open spec fn is_real_text(s: Seq<char>) -> bool {
    let body = unsigned(s);
    ||| lower(body) == seq!['i', 'n', 'f']
    ||| lower(body) == seq!['i', 'n', 'f', 'i', 'n', 'i', 't', 'y']
    ||| lower(body) == seq!['n', 'a', 'n']
    ||| is_number(body)
}

/// Whether `c` is a digit.
pub fn is_digit_char(c: char) -> (r: bool)
    ensures
        r == is_digit(c),
{
    let n: u32 = c as u32;
    0x30 <= n && n <= 0x39
}

/// The number of digits that `v` holds from index `from` on.
fn count_digits(v: &Vec<char>, from: usize) -> (n: usize)
    requires
        from <= v.len(),
    ensures
        from + n <= v.len(),
        n == leading_digits(v@.skip(from as int)),
{
    let mut i: usize = from;
    while i < v.len() && is_digit_char(v[i])
        invariant
            from <= i <= v.len(),
            leading_digits(v@.skip(from as int)) == (i - from) + leading_digits(
                v@.skip(i as int),
            ),
        decreases v.len() - i,
    {
        assert(v@.skip(i as int).drop_first() =~= v@.skip(i + 1));
        i += 1;
    }
    i - from
}

/// Whether `v` holds an exponent from index `from` to its end.
fn exponent_from(v: &Vec<char>, from: usize) -> (r: bool)
    requires
        from <= v.len(),
    ensures
        r == is_exponent(v@.skip(from as int)),
{
    if from >= v.len() {
        return false;
    }
    if lower_char(v[from]) != 'e' {
        return false;
    }
    let mut i: usize = from + 1;
    assert(v@.skip(from as int).drop_first() =~= v@.skip(i as int));
    if i < v.len() && (v[i] == '+' || v[i] == '-') {
        assert(v@.skip(i as int).drop_first() =~= v@.skip(i + 1));
        i += 1;
    }
    assert(unsigned(v@.skip(from as int).drop_first()) == v@.skip(i as int));
    let n: usize = count_digits(v, i);
    n > 0 && i + n == v.len()
}

/// Whether `v` holds a decimal number from index `from` to its end.
fn number_from(v: &Vec<char>, from: usize) -> (r: bool)
    requires
        from <= v.len(),
    ensures
        r == is_number(v@.skip(from as int)),
{
    let ghost s = v@.skip(from as int);
    let whole: usize = count_digits(v, from);
    let mut i: usize = from + whole;
    assert(s.skip(whole as int) =~= v@.skip(i as int));
    let mut fraction: usize = 0;
    if i < v.len() && v[i] == '.' {
        assert(v@.skip(i as int).drop_first() =~= v@.skip(i + 1));
        i += 1;
        fraction = count_digits(v, i);
    }
    let ghost after_point = v@.skip(i as int);
    assert(after_point.skip(fraction as int) =~= v@.skip(i + fraction));
    if whole + fraction == 0 {
        return false;
    }
    i + fraction == v.len() || exponent_from(v, i + fraction)
}

/// Whether `v` is the text of a real number.
pub fn is_real_number_text(v: &Vec<char>) -> (r: bool)
    ensures
        r == is_real_text(v@),
{
    let from: usize = if v.len() > 0 && (v[0] == '+' || v[0] == '-') {
        1
    } else {
        0
    };
    assert(unsigned(v@) =~= v@.skip(from as int));
    let mut body: Vec<char> = Vec::new();
    let mut i: usize = from;
    while i < v.len()
        invariant
            from <= i <= v.len(),
            body@ == v@.subrange(from as int, i as int),
        decreases v.len() - i,
    {
        body.push(v[i]);
        i += 1;
        assert(v@.subrange(from as int, i as int) =~= v@.subrange(from as int, i - 1).push(
            v@[i - 1],
        ));
    }
    assert(body@ =~= v@.skip(from as int));
    let folded = lowered(&body);
    let inf: Vec<char> = vec!['i', 'n', 'f'];
    let infinity: Vec<char> = vec!['i', 'n', 'f', 'i', 'n', 'i', 't', 'y'];
    let nan: Vec<char> = vec!['n', 'a', 'n'];
    same_chars(&folded, &inf) || same_chars(&folded, &infinity) || same_chars(&folded, &nan)
        || number_from(v, from)
}

} // verus!
