//! Converting the text of one field into a typed value.
use chrono::Datelike;
use vstd::prelude::*;

use crate::model::{Date, Error, RebootBehavior};
use crate::text::{
    chars_eq, chars_of, copy_range, count_of, join, join_chars, last_index_of,
    lemma_last_before_occurs, lemma_split_nonempty, locate_last, push_all, split_chars,
    split_on, string_of, trim, trim_chars, views,
};

verus! {

/// The sentinel the catalog prints for an absent value.
pub const ABSENT: &'static str = "n/a";

/// The text marking the start of a KB number in a title.
pub const KB_OPEN: &'static str = "(KB";

/// The text between the update identifier and the row number in a row id.
pub const ROW_MARK: &'static str = "_R";

/// The date layout of the catalog, month first.
pub const DATE_FORMAT: &'static str = "%m/%d/%Y";

/// `None` for the sentinel, the text itself for anything else.
pub open spec fn optional_of(s: Seq<char>) -> Option<Seq<char>> {
    if s == ABSENT@ {
        None
    } else {
        Some(s)
    }
}

/// The reboot behaviour that one of the five catalog labels names.
pub open spec fn reboot_behavior_of(s: Seq<char>) -> Option<RebootBehavior> {
    if s == "Required"@ {
        Some(RebootBehavior::Required)
    } else if s == "Can request restart"@ {
        Some(RebootBehavior::CanRequest)
    } else if s == "Recommended"@ {
        Some(RebootBehavior::Recommended)
    } else if s == "Not required"@ {
        Some(RebootBehavior::NotRequired)
    } else if s == "Never restarts"@ {
        Some(RebootBehavior::NeverRestarts)
    } else {
        None
    }
}

/// `Yes` is true; `No` and the empty text are false.
pub open spec fn yes_no_of(s: Seq<char>) -> Option<bool> {
    if s == "Yes"@ {
        Some(true)
    } else if s == "No"@ || s.len() == 0 {
        Some(false)
    } else {
        None
    }
}

/// "KB" followed by what stands after the last "(KB" of a title, up to the
/// next ")"; nothing where the title holds no "(KB".
pub open spec fn kb_of(title: Seq<char>) -> Option<Seq<char>> {
    let i = last_index_of(title, KB_OPEN@);
    if i < 0 {
        None
    } else {
        Some(
            "KB"@ + split_on(title.subrange(i + KB_OPEN@.len(), title.len() as int), ')')[0],
        )
    }
}

/// The two halves of a row id around its one "_R"; nothing unless it has
/// exactly one.
pub open spec fn row_id_parts(id: Seq<char>) -> Option<(Seq<char>, Seq<char>)> {
    if count_of(id, ROW_MARK@) == 1 {
        let k = last_index_of(id, ROW_MARK@);
        Some((id.subrange(0, k), id.subrange(k + ROW_MARK@.len(), id.len() as int)))
    } else {
        None
    }
}

/// A decimal digit, '0' to '9'.
pub open spec fn is_digit(c: char) -> bool {
    '0' <= c && c <= '9'
}

/// Every character of `s` is a decimal digit.
pub open spec fn all_digits(s: Seq<char>) -> bool {
    forall|i: int| 0 <= i < s.len() ==> is_digit(#[trigger] s[i])
}

/// The number that a string of decimal digits writes.
pub open spec fn decimal_value(s: Seq<char>) -> int
    decreases s.len(),
{
    if s.len() == 0 {
        0
    } else {
        decimal_value(s.drop_last()) * 10 + (s.last() as int - '0' as int)
    }
}

/// What `u64::from_str` reads: an optional `+`, then one or more decimal
/// digits whose value fits in a `u64`.
pub open spec fn u64_of(s: Seq<char>) -> Option<u64> {
    let d = if s.len() > 0 && s[0] == '+' {
        s.drop_first()
    } else {
        s
    };
    if d.len() > 0 && all_digits(d) && decimal_value(d) <= u64::MAX {
        Some(decimal_value(d) as u64)
    } else {
        None
    }
}

/// `s` without any `c`.
pub open spec fn remove_char(s: Seq<char>, c: char) -> Seq<char>
    decreases s.len(),
{
    if s.len() == 0 {
        s
    } else if s.last() == c {
        remove_char(s.drop_last(), c)
    } else {
        remove_char(s.drop_last(), c).push(s.last())
    }
}

/// A size the catalog prints in megabytes with one decimal digit, in bytes:
/// the text before the first space, without its decimal point, read as a
/// whole number of tenths of a megabyte.
pub open spec fn size_of(s: Seq<char>) -> Option<u64> {
    match u64_of(remove_char(split_on(s, ' ')[0], '.')) {
        Some(v) => if v * 1048576 / 10 <= u64::MAX {
            Some((v * 1048576 / 10) as u64)
        } else {
            None
        },
        None => None,
    }
}

/// The last of `lines` that is not blank, without surrounding white space;
/// empty where every line is blank.
pub open spec fn last_filled(lines: Seq<Seq<char>>) -> Seq<char>
    decreases lines.len(),
{
    if lines.len() == 0 {
        Seq::empty()
    } else if trim(lines.last()).len() > 0 {
        trim(lines.last())
    } else {
        last_filled(lines.drop_last())
    }
}

/// The last non-empty line of a nested block, without surrounding white
/// space; empty where the block has no such line.
pub open spec fn last_line(s: Seq<char>) -> Seq<char> {
    last_filled(split_on(s, '\n'))
}

/// The lines of `s`, each without surrounding white space, joined by spaces.
pub open spec fn one_line(s: Seq<char>) -> Seq<char> {
    join(split_on(s, '\n').map_values(|l: Seq<char>| trim(l)), ' ')
}

/// The name of what chrono's `NaiveDate::parse_from_str` reads from `s` with
/// the layout `fmt`, as (year, month, day).
pub uninterp spec fn parsed_date(s: Seq<char>, fmt: Seq<char>) -> Option<(int, int, int)>;

/// The date that the catalog's layout reads from `s`.
pub open spec fn date_of(s: Seq<char>) -> Option<Date> {
    match parsed_date(s, DATE_FORMAT@) {
        Some((y, m, d)) => Some(Date { year: y as i32, month: m as u32, day: d as u32 }),
        None => None,
    }
}

#[verifier::external_type_specification]
#[verifier::external_body]
pub struct ExChronoParseError(chrono::ParseError);

/// Relies on chrono's `NaiveDate::parse_from_str`: whether `s` is accepted and
/// the date read depend on `s` and `fmt` alone; a date's month lies in 1..=12
/// and its day in 1..=31, and its year fits in an `i32`.
#[verifier::external_body]
fn parse_date_with(s: &str, fmt: &str) -> (r: Result<(i32, u32, u32), chrono::ParseError>)
    ensures
        match r {
            Ok((y, m, d)) => parsed_date(s@, fmt@) == Some((y as int, m as int, d as int)) && 1
                <= m <= 12 && 1 <= d <= 31,
            Err(_) => parsed_date(s@, fmt@) is None,
        },
{
    chrono::NaiveDate::parse_from_str(s, fmt).map(|d| (d.year(), d.month(), d.day()))
}

/// Whether `s` is the text `lit`.
pub(crate) fn literal_eq(s: &String, lit: &str) -> (r: bool)
    ensures
        r == (s@ == lit@),
{
    let a = chars_of(s.as_str());
    let b = chars_of(lit);
    chars_eq(a.as_slice(), b.as_slice())
}

/// `parse_optional_string` maps the catalog's "n/a" to `None`.
pub fn parse_optional_string(s: String) -> (r: Option<String>)
    ensures
        match r {
            Some(v) => optional_of(s@) == Some(v@),
            None => optional_of(s@) is None,
        },
{
    if literal_eq(&s, ABSENT) {
        None
    } else {
        Some(s)
    }
}

/// `parse_reboot_behavior` reads one of the five reboot labels.
pub fn parse_reboot_behavior(s: String) -> (r: Result<RebootBehavior, Error>)
    ensures
        match r {
            Ok(b) => reboot_behavior_of(s@) == Some(b),
            Err(e) => reboot_behavior_of(s@) is None && e is Parsing,
        },
{
    if literal_eq(&s, "Required") {
        Ok(RebootBehavior::Required)
    } else if literal_eq(&s, "Can request restart") {
        Ok(RebootBehavior::CanRequest)
    } else if literal_eq(&s, "Recommended") {
        Ok(RebootBehavior::Recommended)
    } else if literal_eq(&s, "Not required") {
        Ok(RebootBehavior::NotRequired)
    } else if literal_eq(&s, "Never restarts") {
        Ok(RebootBehavior::NeverRestarts)
    } else {
        Err(
            Error::Parsing(
                String::from_str("Failed to parse reboot behavior from '").concat(s.as_str()).concat(
                    "'",
                ),
            ),
        )
    }
}

/// `parse_yes_no_bool` reads "Yes", "No" or an empty field.
pub fn parse_yes_no_bool(s: String) -> (r: Result<bool, Error>)
    ensures
        match r {
            Ok(b) => yes_no_of(s@) == Some(b),
            Err(e) => yes_no_of(s@) is None && e is Parsing,
        },
{
    if literal_eq(&s, "Yes") {
        Ok(true)
    } else if literal_eq(&s, "No") || s.as_str().unicode_len() == 0 {
        Ok(false)
    } else {
        Err(
            Error::Parsing(
                String::from_str("Failed to parse yes/no value from '").concat(s.as_str()).concat(
                    "'",
                ),
            ),
        )
    }
}

/// `parse_update_date` reads a month/day/year date.
pub fn parse_update_date(date: String) -> (r: Result<Date, Error>)
    ensures
        match r {
            Ok(d) => date_of(date@) == Some(d) && d.wf(),
            Err(e) => date_of(date@) is None && e is Parsing,
        },
{
    match parse_date_with(date.as_str(), DATE_FORMAT) {
        Ok((year, month, day)) => Ok(Date { year, month, day }),
        Err(_) => Err(
            Error::Parsing(
                String::from_str("Failed to parse date from '").concat(date.as_str()).concat("'"),
            ),
        ),
    }
}

/// `parse_kb_from_string` takes the KB number out of an update title.
pub fn parse_kb_from_string(s: String) -> (r: Result<String, Error>)
    ensures
        match r {
            Ok(k) => kb_of(s@) == Some(k@),
            Err(e) => kb_of(s@) is None && e is Parsing,
        },
{
    let chars = chars_of(s.as_str());
    let pat = chars_of(KB_OPEN);
    let (_, last) = locate_last(chars.as_slice(), pat.as_slice());
    match last {
        None => Err(Error::Parsing(String::from_str("Failed to find KB number in title"))),
        Some(k) => {
            proof {
                lemma_last_before_occurs(chars@, pat@, chars@.len() as int);
                assert(crate::text::occurs_at(chars@, pat@, k as int));
            }
            let n = chars.len();
            let rest = copy_range(chars.as_slice(), k + pat.len(), n);
            let pieces = split_chars(rest.as_slice(), ')');
            proof {
                lemma_split_nonempty(rest@, ')');
            }
            let mut out = chars_of("KB");
            push_all(&mut out, pieces[0].as_slice());
            Ok(string_of(out.as_slice()))
        },
    }
}

proof fn lemma_decimal_grows(s: Seq<char>, n: int)
    requires
        all_digits(s),
        0 <= n <= s.len(),
    ensures
        0 <= decimal_value(s.subrange(0, n)) <= decimal_value(s),
    decreases s.len() - n,
{
    if n < s.len() {
        lemma_decimal_grows(s, n + 1);
        assert(s.subrange(0, n + 1).drop_last() =~= s.subrange(0, n));
        assert(is_digit(s[n]));
    } else {
        assert(s.subrange(0, n) =~= s);
        lemma_decimal_nonneg(s);
    }
}

proof fn lemma_decimal_nonneg(s: Seq<char>)
    requires
        all_digits(s),
    ensures
        decimal_value(s) >= 0,
    decreases s.len(),
{
    if s.len() > 0 {
        assert(is_digit(s[s.len() - 1]));
        assert(all_digits(s.drop_last()));
        lemma_decimal_nonneg(s.drop_last());
    }
}

/// What `u64::from_str` reads from `s`.
fn read_u64(s: &[char]) -> (r: Option<u64>)
    ensures
        r == u64_of(s@),
{
    let n = s.len();
    let start: usize = if n > 0 && s[0] == '+' {
        1
    } else {
        0
    };
    let ghost d = s@.subrange(start as int, n as int);
    proof {
        if n > 0 && s@[0] == '+' {
            assert(d =~= s@.drop_first());
        } else {
            assert(d =~= s@);
        }
    }
    if start == n {
        return None;
    }
    let mut value: u64 = 0;
    let mut too_big = false;
    let mut i: usize = start;
    while i < n
        invariant
            start <= i <= n,
            n == s@.len(),
            d == s@.subrange(start as int, n as int),
            u64_of(s@) == (if d.len() > 0 && all_digits(d) && decimal_value(d) <= u64::MAX {
                Some(decimal_value(d) as u64)
            } else {
                None
            }),
            forall|m: int| start <= m < i ==> is_digit(#[trigger] s@[m]),
            !too_big ==> value == decimal_value(s@.subrange(start as int, i as int)),
            too_big ==> decimal_value(s@.subrange(start as int, i as int)) > u64::MAX,
        decreases n - i,
    {
        let c = s[i];
        if !('0' <= c && c <= '9') {
            proof {
                assert(d[i - start] == c);
                assert(!is_digit(d[i - start]));
            }
            return None;
        }
        let ghost pre = s@.subrange(start as int, i as int);
        let ghost next = s@.subrange(start as int, i + 1);
        proof {
            assert(next.drop_last() =~= pre);
            assert(all_digits(pre));
            lemma_decimal_nonneg(pre);
        }
        let digit = (c as u32 - '0' as u32) as u64;
        if !too_big {
            if value > (u64::MAX - digit) / 10 {
                too_big = true;
            } else {
                value = value * 10 + digit;
            }
        }
        i += 1;
    }
    proof {
        assert(all_digits(d));
        if too_big {
            lemma_decimal_grows(d, d.len() as int);
            assert(d.subrange(0, d.len() as int) =~= d);
        }
    }
    if too_big {
        None
    } else {
        Some(value)
    }
}

/// `s` without any `c`.
fn remove_char_exec(s: &[char], c: char) -> (r: Vec<char>)
    ensures
        r@ == remove_char(s@, c),
{
    let mut r: Vec<char> = Vec::new();
    let mut i: usize = 0;
    proof {
        assert(s@.subrange(0, 0) =~= Seq::<char>::empty());
    }
    while i < s.len()
        invariant
            i <= s@.len(),
            r@ == remove_char(s@.subrange(0, i as int), c),
        decreases s@.len() - i,
    {
        proof {
            assert(s@.subrange(0, i + 1).drop_last() =~= s@.subrange(0, i as int));
        }
        if s[i] != c {
            r.push(s[i]);
        }
        i += 1;
    }
    proof {
        assert(s@.subrange(0, s@.len() as int) =~= s@);
    }
    r
}

/// `parse_size_from_mb_string` converts a size printed as "<MB>.<tenth> MB"
/// into bytes.
pub fn parse_size_from_mb_string(s: String) -> (r: Result<u64, Error>)
    ensures
        match r {
            Ok(v) => size_of(s@) == Some(v),
            Err(e) => size_of(s@) is None && e is Parsing,
        },
{
    let chars = chars_of(s.as_str());
    let pieces = split_chars(chars.as_slice(), ' ');
    proof {
        lemma_split_nonempty(chars@, ' ');
    }
    let number = remove_char_exec(pieces[0].as_slice(), '.');
    match read_u64(number.as_slice()) {
        None => Err(
            Error::Parsing(
                String::from_str("Failed to parse size from '").concat(s.as_str()).concat("'"),
            ),
        ),
        Some(v) => {
            let bytes: u128 = v as u128 * 1048576 / 10;
            if bytes > u64::MAX as u128 {
                Err(
                    Error::Parsing(
                        String::from_str("Size out of range: '").concat(s.as_str()).concat("'"),
                    ),
                )
            } else {
                Ok(bytes as u64)
            }
        },
    }
}

/// `parse_search_row_id` splits a result row's id into the update identifier
/// and the row number.
pub fn parse_search_row_id(id: &str) -> (r: Result<(&str, &str), Error>)
    ensures
        match r {
            Ok((u, n)) => row_id_parts(id@) == Some((u@, n@)),
            Err(e) => row_id_parts(id@) is None && e is Parsing,
        },
{
    let chars = chars_of(id);
    let pat = chars_of(ROW_MARK);
    let (count, last) = locate_last(chars.as_slice(), pat.as_slice());
    if count != 1 {
        return Err(
            Error::Parsing(String::from_str("Failed to parse row id from '").concat(id).concat("'")),
        );
    }
    proof {
        lemma_last_before_occurs(chars@, pat@, chars@.len() as int);
        lemma_count_has_last(chars@, pat@, chars@.len() as int);
    }
    match last {
        Some(k) => {
            let n = id.unicode_len();
            Ok((id.substring_char(0, k), id.substring_char(k + pat.len(), n)))
        },
        None => Err(
            Error::Parsing(String::from_str("Failed to parse row id from '").concat(id).concat("'")),
        ),
    }
}

proof fn lemma_count_has_last(s: Seq<char>, p: Seq<char>, n: int)
    ensures
        crate::text::count_before(s, p, n) > 0 ==> crate::text::last_before(s, p, n) >= 0,
    decreases n,
{
    if n > 0 {
        lemma_count_has_last(s, p, n - 1);
    }
}

/// `clean_string_with_newlines` puts a multi-line text on one line: each line
/// without surrounding white space, the lines joined by single spaces.
pub fn clean_string_with_newlines(s: String) -> (r: String)
    ensures
        r@ == one_line(s@),
{
    let chars = chars_of(s.as_str());
    let lines = split_chars(chars.as_slice(), '\n');
    let mut trimmed: Vec<Vec<char>> = Vec::new();
    let mut i: usize = 0;
    while i < lines.len()
        invariant
            i <= lines@.len(),
            views(lines@) == split_on(chars@, '\n'),
            trimmed@.len() == i,
            forall|m: int| 0 <= m < i ==> #[trigger] trimmed@[m]@ == trim(lines@[m]@),
        decreases lines@.len() - i,
    {
        let t = trim_chars(lines[i].as_slice());
        trimmed.push(t);
        i += 1;
    }
    proof {
        assert(views(trimmed@) =~= split_on(chars@, '\n').map_values(|l: Seq<char>| trim(l)));
    }
    let joined = join_chars(&trimmed, ' ');
    string_of(joined.as_slice())
}

/// `clean_nested_div_text` keeps the last non-empty line of a nested block,
/// without surrounding white space, or the empty text where there is none.
pub fn clean_nested_div_text(text: String) -> (r: Result<String, Error>)
    ensures
        r matches Ok(t) && t@ == last_line(text@),
{
    let chars = chars_of(text.as_str());
    let lines = split_chars(chars.as_slice(), '\n');
    let mut k: usize = lines.len();
    proof {
        assert(views(lines@).subrange(0, k as int) =~= views(lines@));
    }
    while k > 0
        invariant
            k <= lines@.len(),
            chars@ == text@,
            views(lines@) == split_on(chars@, '\n'),
            last_filled(views(lines@)) == last_filled(views(lines@).subrange(0, k as int)),
        decreases k,
    {
        let t = trim_chars(lines[k - 1].as_slice());
        let ghost upto = views(lines@).subrange(0, k as int);
        proof {
            assert(upto.drop_last() =~= views(lines@).subrange(0, k - 1));
            assert(upto.last() == lines@[k - 1]@);
        }
        if t.len() > 0 {
            proof {
                assert(trim(upto.last()).len() > 0);
                assert(last_filled(upto) == t@);
            }
            return Ok(string_of(t.as_slice()));
        }
        k -= 1;
    }
    proof {
        assert(views(lines@).subrange(0, 0) =~= Seq::<Seq<char>>::empty());
    }
    Ok(String::new())
}

} // verus!

verus! {

proof fn lemma_split_without_sep(x: Seq<char>, sep: char)
    requires
        forall|i: int| 0 <= i < x.len() ==> x[i] != sep,
    ensures
        split_on(x, sep) == seq![x],
    decreases x.len(),
{
    if x.len() > 0 {
        lemma_split_without_sep(x.drop_last(), sep);
        assert(x.drop_last().push(x.last()) =~= x);
        assert(x[x.len() - 1] != sep);
        assert(seq![x.drop_last()].update(0, x.drop_last().push(x.last())) =~= seq![x]);
    } else {
        assert(x =~= Seq::<char>::empty());
    }
}

proof fn lemma_split_first_piece(x: Seq<char>, sep: char, y: Seq<char>)
    requires
        forall|i: int| 0 <= i < x.len() ==> x[i] != sep,
    ensures
        split_on(x.push(sep) + y, sep).len() >= 2,
        split_on(x.push(sep) + y, sep)[0] == x,
    decreases y.len(),
{
    if y.len() == 0 {
        assert(x.push(sep) + y =~= x.push(sep));
        assert(x.push(sep).drop_last() =~= x);
        lemma_split_without_sep(x, sep);
    } else {
        let s = x.push(sep) + y;
        assert(s.drop_last() =~= x.push(sep) + y.drop_last());
        lemma_split_first_piece(x, sep, y.drop_last());
    }
}

proof fn lemma_remove_absent(x: Seq<char>, c: char)
    requires
        forall|i: int| 0 <= i < x.len() ==> x[i] != c,
    ensures
        remove_char(x, c) == x,
    decreases x.len(),
{
    if x.len() > 0 {
        lemma_remove_absent(x.drop_last(), c);
        assert(x.drop_last().push(x.last()) =~= x);
    }
}

/// A size written as megabytes with one decimal, "<mb>.<d> MB", is
/// `(mb * 10 + d) * 1024 * 1024 / 10` bytes, wherever that fits in a `u64`.
pub proof fn lemma_size_formula(mb: Seq<char>, d: char)
    requires
        all_digits(mb),
        is_digit(d),
        (decimal_value(mb) * 10 + (d as int - '0' as int)) * 1048576 / 10 <= u64::MAX,
    ensures
        size_of(mb.push('.').push(d) + " MB"@) == Some(
            ((decimal_value(mb) * 10 + (d as int - '0' as int)) * 1048576 / 10) as u64,
        ),
{
    reveal_strlit(" MB");
    let number = mb.push('.').push(d);
    let s = number + " MB"@;
    assert(s =~= number.push(' ') + "MB"@) by {
        reveal_strlit("MB");
    }
    assert forall|i: int| 0 <= i < number.len() implies number[i] != ' ' by {
        if i < mb.len() {
            assert(is_digit(mb[i]));
        }
    }
    lemma_split_first_piece(number, ' ', "MB"@);
    assert(split_on(s, ' ')[0] == number);
    assert forall|i: int| 0 <= i < mb.len() implies mb[i] != '.' by {
        assert(is_digit(mb[i]));
    }
    lemma_remove_absent(mb, '.');
    assert(number.drop_last() =~= mb.push('.'));
    assert(mb.push('.').drop_last() =~= mb);
    let digits = mb.push(d);
    assert(d != '.');
    assert(remove_char(mb.push('.'), '.') == mb);
    assert(remove_char(number, '.') == remove_char(mb.push('.'), '.').push(d));
    assert(remove_char(number, '.') == digits);
    assert(digits.drop_last() =~= mb);
    assert(all_digits(digits)) by {
        assert forall|i: int| 0 <= i < digits.len() implies is_digit(#[trigger] digits[i]) by {
            if i < mb.len() {
                assert(is_digit(mb[i]));
            }
        }
    }
    lemma_decimal_nonneg(mb);
    let x = decimal_value(digits);
    assert(x == decimal_value(mb) * 10 + (d as int - '0' as int));
    assert(x <= x * 1048576 / 10) by (nonlinear_arith)
        requires
            x >= 0,
    ;
    assert(digits[0] != '+') by {
        if mb.len() > 0 {
            assert(is_digit(mb[0]));
        }
    }
}

proof fn lemma_no_occurrence_no_last(s: Seq<char>, p: Seq<char>, n: int)
    ensures
        crate::text::count_before(s, p, n) == 0 ==> crate::text::last_before(s, p, n) == -1,
    decreases n,
{
    if n > 0 {
        lemma_no_occurrence_no_last(s, p, n - 1);
    }
}

/// A title in which "(KB" does not occur has no KB number: extracting one
/// fails rather than falling back to some default.
pub proof fn lemma_kb_needs_marker(title: Seq<char>)
    requires
        count_of(title, KB_OPEN@) == 0,
    ensures
        kb_of(title) is None,
{
    lemma_no_occurrence_no_last(title, KB_OPEN@, title.len() as int);
}

} // verus!
