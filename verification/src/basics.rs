//! Functions, borrowing, error values, a struct with methods and an
//! enum dispatched by `match`.
use vstd::prelude::*;
use vstd::utf8::encode_utf8;
use std::num::IntErrorKind;

verus! {

/// Sum of two 32-bit integers; the sum must fit in an `i32`.
pub fn add(a: i32, b: i32) -> (r: i32)
    requires
        i32::MIN <= a + b <= i32::MAX,
    ensures
        r == a + b,
{
    a + b
}

/// Length of a string in bytes (its UTF-8 encoding), read through a shared borrow.
pub fn str_len(s: &String) -> (r: usize)
    ensures
        r as nat == encode_utf8(s@).len(),
{
    s.as_str().as_bytes().len()
}

/// Appends `'!'` to a string through a mutable borrow.
pub fn add_bang(s: &mut String)
    ensures
        final(s)@ == old(s)@.push('!'),
{
    s.append("!");
    proof {
        reveal_strlit("!");
    }
}

/// The value of a nonempty sequence of ASCII decimal digits.
pub open spec fn digits_value(ds: Seq<char>) -> int
    decreases ds.len(),
{
    if ds.len() == 0 {
        0
    } else {
        digits_value(ds.drop_last()) * 10 + (ds.last() as int - '0' as int)
    }
}

/// Every character is an ASCII decimal digit.
pub open spec fn all_digits(ds: Seq<char>) -> bool {
    forall|i: int| 0 <= i < ds.len() ==> '0' <= #[trigger] ds[i] <= '9'
}

/// What the decimal text `s` denotes as an `i32`: an optional `+` or `-`
/// followed by at least one ASCII digit and nothing else, with a value in
/// the range of `i32`; `None` for every other text.
pub open spec fn parse_i32_spec(s: Seq<char>) -> Option<int> {
    let negative = s.len() > 0 && s[0] == '-';
    let signed = s.len() > 0 && (s[0] == '-' || s[0] == '+');
    let ds = if signed { s.drop_first() } else { s };
    let v = if negative { -digits_value(ds) } else { digits_value(ds) };
    if ds.len() == 0 || !all_digits(ds) || v < i32::MIN || v > i32::MAX {
        None
    } else {
        Some(v)
    }
}

/// Why a text is not an `i32`, as std's `IntErrorKind` tells it.
#[derive(Clone, Copy, Debug, PartialEq, Eq, Structural)]
pub enum ParseErrorKind {
    /// The text is empty.
    Empty,
    /// A character that is not a digit where a digit belongs, or a sign alone.
    InvalidDigit,
    /// The number is above `i32::MAX`.
    PosOverflow,
    /// The number is below `i32::MIN`.
    NegOverflow,
}

/// The error of parsing a text as an `i32`.
#[derive(Clone, Copy, Debug, PartialEq, Eq, Structural)]
pub struct ParseError {
    pub kind: ParseErrorKind,
}

impl ParseError {
    /// Why the text was refused.
    pub fn kind(&self) -> (k: &ParseErrorKind)
        ensures
            *k == self.kind,
    {
        &self.kind
    }

    /// The text that describes the error, as std's `ParseIntError` prints it.
    pub fn message(&self) -> (m: &'static str)
        ensures
            m@ == match self.kind {
                ParseErrorKind::Empty => "cannot parse integer from empty string"@,
                ParseErrorKind::InvalidDigit => "invalid digit found in string"@,
                ParseErrorKind::PosOverflow => "number too large to fit in target type"@,
                ParseErrorKind::NegOverflow => "number too small to fit in target type"@,
            },
    {
        match self.kind {
            ParseErrorKind::Empty => "cannot parse integer from empty string",
            ParseErrorKind::InvalidDigit => "invalid digit found in string",
            ParseErrorKind::PosOverflow => "number too large to fit in target type",
            ParseErrorKind::NegOverflow => "number too small to fit in target type",
        }
    }
}

/// The text starts with a sign character.
pub open spec fn has_sign(s: Seq<char>) -> bool {
    s.len() > 0 && (s[0] == '+' || s[0] == '-')
}

/// Reading the digits `ds` from the left, each one multiplying the value so
/// far by ten and then adding (or, for a negative number, subtracting) the
/// digit: the value, or the first thing that goes wrong, a character that
/// is not a digit or a value that leaves the range of `i32`.
pub open spec fn scan_digits(ds: Seq<char>, negative: bool) -> Result<int, ParseErrorKind>
    decreases ds.len(),
{
    if ds.len() == 0 {
        Ok(0)
    } else {
        match scan_digits(ds.drop_last(), negative) {
            Err(k) => Err(k),
            Ok(acc) => {
                let c = ds.last();
                let d = c as int - '0' as int;
                let v = if negative { acc * 10 - d } else { acc * 10 + d };
                if !('0' <= c <= '9') {
                    Err(ParseErrorKind::InvalidDigit)
                } else if v > i32::MAX {
                    Err(ParseErrorKind::PosOverflow)
                } else if v < i32::MIN {
                    Err(ParseErrorKind::NegOverflow)
                } else {
                    Ok(v)
                }
            },
        }
    }
}

/// What std makes of the text `s` as an `i32`: an empty text is `Empty`, a
/// sign alone is `InvalidDigit`; otherwise an optional sign is taken off and
/// the digits are read from the left (`scan_digits`).
pub open spec fn parse_outcome(s: Seq<char>) -> Result<int, ParseErrorKind> {
    if s.len() == 0 {
        Err(ParseErrorKind::Empty)
    } else if s.len() == 1 && has_sign(s) {
        Err(ParseErrorKind::InvalidDigit)
    } else if has_sign(s) {
        scan_digits(s.drop_first(), s[0] == '-')
    } else {
        scan_digits(s, false)
    }
}

/// The kind of error that parsing `s` gives (meaningful when it fails).
pub open spec fn parse_error_kind(s: Seq<char>) -> ParseErrorKind {
    match parse_outcome(s) {
        Err(k) => k,
        Ok(_) => ParseErrorKind::InvalidDigit,
    }
}

/// `str::parse::<i32>` (std's `FromStr for i32`, that is
/// `i32::from_str_radix(s, 10)`), with its error converted to the library's
/// `ParseError` by the error's `kind()`. The contract claims that std reads
/// the text as `parse_outcome` does: empty text is `Empty`; a lone `+` or
/// `-` is `InvalidDigit`; after an optional sign, the ASCII digits are read
/// from the left and the first character that is not a digit gives
/// `InvalidDigit`, the first value out of range `PosOverflow` or
/// `NegOverflow`. The kind `Zero` belongs to non-zero integer types and
/// does not occur for `i32`.
#[verifier::external_body]
fn parse_i32(s: &str) -> (res: Result<i32, ParseError>)
    ensures
        match res {
            Ok(n) => parse_outcome(s@) == Ok::<int, ParseErrorKind>(n as int),
            Err(e) => parse_outcome(s@) == Err::<int, ParseErrorKind>(e.kind),
        },
{
    match s.parse::<i32>() {
        Ok(n) => Ok(n),
        Err(e) => Err(ParseError {
            kind: match e.kind() {
                IntErrorKind::Empty => ParseErrorKind::Empty,
                IntErrorKind::PosOverflow => ParseErrorKind::PosOverflow,
                IntErrorKind::NegOverflow => ParseErrorKind::NegOverflow,
                IntErrorKind::InvalidDigit => ParseErrorKind::InvalidDigit,
                _ => ParseErrorKind::InvalidDigit,
            },
        }),
    }
}

/// `scan_digits` succeeds exactly on digit texts whose value is
/// in range, with that value.
proof fn lemma_scan_digits(ds: Seq<char>, negative: bool)
    ensures
        scan_digits(ds, negative) is Ok <==> all_digits(ds) && i32::MIN <= (if negative {
            -digits_value(ds)
        } else {
            digits_value(ds)
        }) <= i32::MAX,
        scan_digits(ds, negative) is Ok ==> scan_digits(ds, negative) == Ok::<int, ParseErrorKind>(
            if negative {
                -digits_value(ds)
            } else {
                digits_value(ds)
            },
        ),
        all_digits(ds) ==> digits_value(ds) >= 0,
    decreases ds.len(),
{
    if ds.len() > 0 {
        let p = ds.drop_last();
        lemma_scan_digits(p, negative);
        assert(all_digits(ds) ==> all_digits(p)) by {
            if all_digits(ds) {
                assert forall|i: int| 0 <= i < p.len() implies '0' <= #[trigger] p[i] <= '9' by {
                    assert(p[i] == ds[i]);
                }
            }
        }
        assert(all_digits(p) && '0' <= ds.last() <= '9' ==> all_digits(ds)) by {
            if all_digits(p) && '0' <= ds.last() <= '9' {
                assert forall|i: int| 0 <= i < ds.len() implies '0' <= #[trigger] ds[i] <= '9' by {
                    if i < p.len() {
                        assert(p[i] == ds[i]);
                    }
                }
            }
        }
        assert(all_digits(ds) ==> '0' <= ds[ds.len() - 1] <= '9');
    }
}

/// The two readings of a decimal text agree: std's left-to-right reading
/// succeeds exactly on the texts of `parse_i32_spec`, with the same value.
pub proof fn lemma_parse_outcome_matches_grammar(s: Seq<char>)
    ensures
        parse_outcome(s) is Ok <==> parse_i32_spec(s) is Some,
        parse_i32_spec(s) matches Some(v) ==> parse_outcome(s) == Ok::<int, ParseErrorKind>(v),
{
    if s.len() > 0 {
        let ds = if has_sign(s) { s.drop_first() } else { s };
        lemma_scan_digits(ds, has_sign(s) && s[0] == '-');
    }
}

proof fn lemma_scan_digits_overflow_sign(ds: Seq<char>, negative: bool)
    requires
        all_digits(ds),
    ensures
        scan_digits(ds, negative) is Err ==> scan_digits(ds, negative) == Err::<int, ParseErrorKind>(
            if negative {
                ParseErrorKind::NegOverflow
            } else {
                ParseErrorKind::PosOverflow
            },
        ),
        scan_digits(ds, negative) matches Ok(v) ==> (if negative {
            v <= 0
        } else {
            v >= 0
        }),
    decreases ds.len(),
{
    if ds.len() > 0 {
        let p = ds.drop_last();
        assert forall|i: int| 0 <= i < p.len() implies '0' <= #[trigger] p[i] <= '9' by {
            assert(p[i] == ds[i]);
        }
        lemma_scan_digits_overflow_sign(p, negative);
        assert('0' <= ds[ds.len() - 1] <= '9');
    }
}

proof fn lemma_scan_digits_bad_first(ds: Seq<char>, negative: bool)
    requires
        ds.len() > 0,
        !('0' <= ds[0] <= '9'),
    ensures
        scan_digits(ds, negative) == Err::<int, ParseErrorKind>(ParseErrorKind::InvalidDigit),
    decreases ds.len(),
{
    let p = ds.drop_last();
    if ds.len() == 1 {
        assert(p =~= Seq::<char>::empty());
    } else {
        assert(p[0] == ds[0]);
        lemma_scan_digits_bad_first(p, negative);
    }
}

/// The kinds of error, by the shape of the text: an empty text is `Empty`;
/// a sign alone, or a first character after the optional sign that is not
/// a digit, is `InvalidDigit`; digits alone (after an optional sign) whose
/// number is above `i32::MAX` give `PosOverflow`, and with a `-` sign below
/// `i32::MIN` give `NegOverflow`.
pub proof fn law_parse_error_kinds(s: Seq<char>)
    ensures
        s.len() == 0 ==> parse_outcome(s) == Err::<int, ParseErrorKind>(ParseErrorKind::Empty),
        s.len() == 1 && (s[0] == '+' || s[0] == '-') ==> parse_outcome(s) == Err::<int, ParseErrorKind>(
            ParseErrorKind::InvalidDigit,
        ),
        s.len() > 0 && s[0] != '+' && s[0] != '-' && !('0' <= s[0] <= '9') ==> parse_outcome(s)
            == Err::<int, ParseErrorKind>(ParseErrorKind::InvalidDigit),
        s.len() > 1 && (s[0] == '+' || s[0] == '-') && !('0' <= s[1] <= '9') ==> parse_outcome(s)
            == Err::<int, ParseErrorKind>(ParseErrorKind::InvalidDigit),
        s.len() > 0 && all_digits(s) && digits_value(s) > i32::MAX ==> parse_outcome(s) == Err::<
            int,
            ParseErrorKind,
        >(ParseErrorKind::PosOverflow),
        s.len() > 1 && s[0] == '+' && all_digits(s.drop_first()) && digits_value(s.drop_first())
            > i32::MAX ==> parse_outcome(s) == Err::<int, ParseErrorKind>(
            ParseErrorKind::PosOverflow,
        ),
        s.len() > 1 && s[0] == '-' && all_digits(s.drop_first()) && -digits_value(s.drop_first())
            < i32::MIN ==> parse_outcome(s) == Err::<int, ParseErrorKind>(
            ParseErrorKind::NegOverflow,
        ),
{
    if s.len() > 0 {
        let signed = s[0] == '+' || s[0] == '-';
        let ds = if signed { s.drop_first() } else { s };
        let negative = signed && s[0] == '-';
        if ds.len() > 0 {
            if !('0' <= ds[0] <= '9') {
                lemma_scan_digits_bad_first(ds, negative);
            }
            if all_digits(ds) {
                lemma_scan_digits(ds, negative);
                lemma_scan_digits_overflow_sign(ds, negative);
            }
        }
    }
}

/// Parses decimal text into an `i32`; an error value instead of an exception.
pub fn parse_num(s: &str) -> (res: Result<i32, ParseError>)
    ensures
        res is Ok <==> parse_i32_spec(s@) is Some,
        res matches Ok(n) ==> parse_i32_spec(s@) == Some(n as int),
        res matches Err(e) ==> e.kind == parse_error_kind(s@),
{
    let res = parse_i32(s);
    proof {
        lemma_parse_outcome_matches_grammar(s@);
    }
    res
}

/// The ASCII character of a decimal digit.
pub open spec fn digit_char(d: nat) -> char {
    if d == 0 {
        '0'
    } else if d == 1 {
        '1'
    } else if d == 2 {
        '2'
    } else if d == 3 {
        '3'
    } else if d == 4 {
        '4'
    } else if d == 5 {
        '5'
    } else if d == 6 {
        '6'
    } else if d == 7 {
        '7'
    } else if d == 8 {
        '8'
    } else {
        '9'
    }
}

/// The decimal text of a natural number, without leading zeros.
pub open spec fn decimal(n: nat) -> Seq<char>
    decreases n,
{
    if n < 10 {
        seq![digit_char(n)]
    } else {
        decimal(n / 10).push(digit_char(n % 10))
    }
}

/// The decimal text of a number is made of ASCII digits that read back as
/// the number, and it starts with `0` only when the number is 0.
pub proof fn law_decimal_reads_back(n: nat)
    ensures
        all_digits(decimal(n)),
        digits_value(decimal(n)) == n,
        decimal(n).len() >= 1,
        decimal(n)[0] == '0' ==> n == 0,
    decreases n,
{
    if n < 10 {
        let ds = decimal(n);
        assert(ds.drop_last() =~= Seq::<char>::empty());
        assert(digits_value(ds) == n) by {
            reveal_with_fuel(digits_value, 2);
        }
    } else {
        law_decimal_reads_back(n / 10);
        let ds = decimal(n);
        let p = decimal(n / 10);
        assert(ds.drop_last() =~= p);
        assert(ds[0] == p[0]);
        assert forall|i: int| 0 <= i < ds.len() implies '0' <= #[trigger] ds[i] <= '9' by {
            if i < p.len() {
                assert(ds[i] == p[i]);
            }
        }
        assert(digits_value(ds) == digits_value(p) * 10 + (ds.last() as int - '0' as int));
    }
}

fn append_digit(s: &mut String, d: u32)
    requires
        d < 10,
    ensures
        final(s)@ == old(s)@.push(digit_char(d as nat)),
{
    proof {
        reveal_strlit("0");
        reveal_strlit("1");
        reveal_strlit("2");
        reveal_strlit("3");
        reveal_strlit("4");
        reveal_strlit("5");
        reveal_strlit("6");
        reveal_strlit("7");
        reveal_strlit("8");
        reveal_strlit("9");
    }
    if d == 0 {
        s.append("0");
    } else if d == 1 {
        s.append("1");
    } else if d == 2 {
        s.append("2");
    } else if d == 3 {
        s.append("3");
    } else if d == 4 {
        s.append("4");
    } else if d == 5 {
        s.append("5");
    } else if d == 6 {
        s.append("6");
    } else if d == 7 {
        s.append("7");
    } else if d == 8 {
        s.append("8");
    } else {
        s.append("9");
    }
}

fn append_decimal(s: &mut String, n: u32)
    ensures
        final(s)@ == old(s)@ + decimal(n as nat),
    decreases n,
{
    if n >= 10 {
        append_decimal(s, n / 10);
    }
    append_digit(s, n % 10);
    proof {
        assert(old(s)@ + decimal(n as nat) =~= if n >= 10 {
            (old(s)@ + decimal((n / 10) as nat)).push(digit_char((n % 10) as nat))
        } else {
            old(s)@.push(digit_char((n % 10) as nat))
        });
    }
}

/// A person with a name and an age in years.
pub struct User {
    pub name: String,
    pub age: u32,
}

/// The self-introduction of a user: `我是 {name}，{age} 歲`.
pub open spec fn greeting_text(name: Seq<char>, age: nat) -> Seq<char> {
    "我是 "@ + name + "，"@ + decimal(age) + " 歲"@
}

/// A greeting is `我是 `, the name, `，`, the age written with ASCII digits
/// that read back as the age (no leading zero), and ` 歲`.
pub proof fn law_greeting_text(name: Seq<char>, age: nat)
    ensures
        exists|digits: Seq<char>|
            greeting_text(name, age) == "我是 "@ + name + "，"@ + digits + " 歲"@ && all_digits(
                digits,
            ) && digits_value(digits) == age && digits.len() >= 1 && (digits[0] == '0' ==> age
                == 0),
{
    law_decimal_reads_back(age);
    let digits = decimal(age);
    assert(greeting_text(name, age) == "我是 "@ + name + "，"@ + digits + " 歲"@);
}

impl User {
    /// A user with a copy of `name` and the given age.
    pub fn new(name: &str, age: u32) -> (u: User)
        ensures
            u.name@ == name@,
            u.age == age,
    {
        User { name: name.to_owned(), age }
    }

    /// The user's self-introduction, read through a shared borrow.
    pub fn greeting(&self) -> (g: String)
        ensures
            g@ == greeting_text(self.name@, self.age as nat),
    {
        let mut g = String::from_str("我是 ");
        g.append(self.name.as_str());
        g.append("，");
        append_decimal(&mut g, self.age);
        g.append(" 歲");
        g
    }

    /// One year older; the name stays.
    pub fn have_birthday(&mut self)
        requires
            old(self).age < u32::MAX,
        ensures
            final(self).age == old(self).age + 1,
            final(self).name@ == old(self).name@,
    {
        self.age = self.age + 1;
    }
}

/// The kinds of shape; what a shape is called depends on its kind alone.
#[derive(Clone, Copy, Debug, PartialEq, Eq, Structural)]
pub enum ShapeKind {
    Circle,
    Rectangle,
    Square,
}

impl ShapeKind {
    /// The name of a shape of this kind.
    pub fn name(&self) -> (n: &'static str)
        ensures
            n@ == match *self {
                ShapeKind::Circle => "圓形"@,
                ShapeKind::Rectangle => "矩形"@,
                ShapeKind::Square => "正方形"@,
            },
    {
        match self {
            ShapeKind::Circle => "圓形",
            ShapeKind::Rectangle => "矩形",
            ShapeKind::Square => "正方形",
        }
    }
}

/// The part of the day that an hour falls in: 1 to 12 morning (`上午`),
/// 13 to 17 afternoon (`下午`), any other value `其他`.
pub fn day_period(hour: i32) -> (p: &'static str)
    ensures
        p@ == if 1 <= hour <= 12 {
            "上午"@
        } else if 13 <= hour <= 17 {
            "下午"@
        } else {
            "其他"@
        },
{
    if 1 <= hour && hour <= 12 {
        "上午"
    } else if 13 <= hour && hour <= 17 {
        "下午"
    } else {
        "其他"
    }
}

} // verus!
