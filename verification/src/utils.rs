//! Small helpers: version numbers, timestamps and text.

use vstd::prelude::*;
use vstd::string::*;

verus! {

/// A part of a version.
#[derive(Debug)]
pub enum VersionPart {
    Number(i32),
    Text(String),
}

/// What a part of a version holds.
pub ghost enum PartView {
    Number(i32),
    Text(Seq<char>),
}

impl View for VersionPart {
    type V = PartView;

    open spec fn view(&self) -> PartView {
        match self {
            VersionPart::Number(number) => PartView::Number(*number),
            VersionPart::Text(text) => PartView::Text(text@),
        }
    }
}

/// What the parts of a version hold.
pub open spec fn parts_view(parts: Seq<VersionPart>) -> Seq<PartView> {
    parts.map_values(|part: VersionPart| part@)
}

/// How a version compares to another one.
#[derive(Clone, Copy, Debug, PartialEq, Eq, Structural)]
pub enum VersionOrder {
    Older,
    Same,
    Newer,
}

/// The parts that a version text is split into, if it is a version.
pub uninterp spec fn version_parts(text: Seq<char>) -> Option<Seq<PartView>>;

/// The order of two versions by their parts.
pub uninterp spec fn version_order(a: Seq<PartView>, b: Seq<PartView>) -> VersionOrder;

/// The order of two lists of numbers of the same length: the first difference
/// decides.
pub open spec fn numeric_order(a: Seq<PartView>, b: Seq<PartView>) -> VersionOrder
    decreases a.len(),
{
    if a.len() == 0 || b.len() == 0 {
        VersionOrder::Same
    } else if a[0]->Number_0 < b[0]->Number_0 {
        VersionOrder::Older
    } else if a[0]->Number_0 > b[0]->Number_0 {
        VersionOrder::Newer
    } else {
        numeric_order(a.skip(1), b.skip(1))
    }
}

/// Only numbers.
pub open spec fn all_numbers(parts: Seq<PartView>) -> bool {
    forall|i: int| 0 <= i < parts.len() ==> #[trigger] parts[i] is Number
}

/// `version_compare::Version::from`: the parts of a version, or nothing if the
/// text has parts but none of them is a number.
#[verifier::external_body]
fn parse_version(text: &str) -> (res: Option<Vec<VersionPart>>)
    ensures
        match res {
            Some(parts) => version_parts(text@) == Some(parts_view(parts@)),
            None => version_parts(text@) == None::<Seq<PartView>>,
        },
{
    let version = version_compare::Version::from(text)?;
    Some(
        version
            .parts()
            .iter()
            .map(|part| match part {
                version_compare::Part::Number(number) => VersionPart::Number(*number),
                version_compare::Part::Text(text) => VersionPart::Text(text.to_string()),
            })
            .collect(),
    )
}

/// `version_compare::Version::compare` on versions that are given by their
/// parts: numbers are compared part by part, and the first difference decides.
/// What becomes of text and of missing parts is left to the crate.
#[verifier::external_body]
fn order_versions(a: &[VersionPart], b: &[VersionPart]) -> (res: VersionOrder)
    ensures
        res == version_order(parts_view(a@), parts_view(b@)),
        a@.len() == b@.len() && all_numbers(parts_view(a@)) && all_numbers(parts_view(b@))
            ==> res == numeric_order(parts_view(a@), parts_view(b@)),
{
    let a = a.iter().map(|part| match part {
        VersionPart::Number(number) => version_compare::Part::Number(*number),
        VersionPart::Text(text) => version_compare::Part::Text(text.as_str()),
    });
    let b = b.iter().map(|part| match part {
        VersionPart::Number(number) => version_compare::Part::Number(*number),
        VersionPart::Text(text) => version_compare::Part::Text(text.as_str()),
    });
    let b = version_compare::Version::from_parts("", b.collect());
    match version_compare::Version::from_parts("", a.collect()).compare(&b) {
        version_compare::Cmp::Lt => VersionOrder::Older,
        version_compare::Cmp::Gt => VersionOrder::Newer,
        _ => VersionOrder::Same,
    }
}

/// A version.
#[derive(Debug)]
pub struct Version {
    parts: Vec<VersionPart>,
}

impl View for Version {
    type V = Seq<PartView>;

    closed spec fn view(&self) -> Seq<PartView> {
        parts_view(self.parts@)
    }
}

/// The parts of a version of three numbers.
pub open spec fn three_numbers(major: i32, minor: i32, patch: i32) -> Seq<PartView> {
    seq![PartView::Number(major), PartView::Number(minor), PartView::Number(patch)]
}

impl Version {
    /// The version that a text states, if it is one.
    pub fn parse(text: &str) -> (res: Option<Self>)
        ensures
            match res {
                Some(version) => version_parts(text@) == Some(version@),
                None => version_parts(text@) == None::<Seq<PartView>>,
            },
    {
        match parse_version(text) {
            Some(parts) => Some(Self { parts }),
            None => None,
        }
    }

    pub fn compare(&self, other: &Version) -> (res: VersionOrder)
        ensures
            res == version_order(self@, other@),
            self@.len() == other@.len() && all_numbers(self@) && all_numbers(other@) ==> res
                == numeric_order(self@, other@),
    {
        order_versions(self.parts.as_slice(), other.parts.as_slice())
    }
}

/// The version of three numbers.
pub fn create_version(major: i32, minor: i32, patch: i32) -> (res: Version)
    ensures
        res@ == three_numbers(major, minor, patch),
{
    let mut parts: Vec<VersionPart> = Vec::new();
    parts.push(VersionPart::Number(major));
    parts.push(VersionPart::Number(minor));
    parts.push(VersionPart::Number(patch));
    let res = Version { parts };
    assert(res@ =~= three_numbers(major, minor, patch));
    res
}

/// The time that a clock shows, in milliseconds since the epoch. It is 0 if the
/// clock is set before the epoch, or so far ahead that 64 bits do not hold it.
pub open spec fn clock_reading(millis_since_epoch: Option<u128>) -> int {
    match millis_since_epoch {
        Some(millis) => if millis <= u64::MAX {
            millis as int
        } else {
            0
        },
        None => 0,
    }
}

/// The gateway's timestamp in milliseconds since the epoch, from the time on
/// its clock and the last timestamp before. It never goes back, even if the
/// clock does.
pub fn gateway_timestamp(last: u64, millis_since_epoch: Option<u128>) -> (res: u64)
    ensures
        res >= last,
        res == (if clock_reading(millis_since_epoch) > last {
            clock_reading(millis_since_epoch)
        } else {
            last as int
        }),
{
    let reading: u64 = match millis_since_epoch {
        Some(millis) => if millis <= 0xffff_ffff_ffff_ffff {
            millis as u64
        } else {
            0
        },
        None => 0,
    };
    if reading > last {
        reading
    } else {
        last
    }
}

/// A number in decimal digits, without leading zeros.
pub open spec fn decimal(number: nat) -> Seq<char>
    decreases number,
{
    if number < 10 {
        seq![(48 + number) as char]
    } else {
        decimal(number / 10).push((48 + number % 10) as char)
    }
}

fn decimal_digit(digit: u64) -> (res: &'static str)
    requires
        digit < 10,
    ensures
        res@ == seq![(48 + digit) as char],
{
    proof {
        reveal_strlit("0");
        reveal_strlit("1");
        reveal_strlit("2");
        reveal_strlit("3");
        reveal_strlit("4");
        reveal_strlit("5");
        reveal_strlit("6");
        reveal_strlit("7");
        reveal_strlit("8");
        reveal_strlit("9");
    }
    let res: &'static str = match digit {
        0 => "0",
        1 => "1",
        2 => "2",
        3 => "3",
        4 => "4",
        5 => "5",
        6 => "6",
        7 => "7",
        8 => "8",
        _ => "9",
    };
    assert(res@ =~= seq![(48 + digit) as char]);
    res
}

/// The decimal digits of a number.
pub fn decimal_text(number: u64) -> (res: String)
    ensures
        res@ == decimal(number as nat),
    decreases number,
{
    let mut res = if number < 10 {
        String::new()
    } else {
        decimal_text(number / 10)
    };
    res.append(decimal_digit(number % 10));
    assert(res@ =~= decimal(number as nat));
    res
}

/// Zeros.
pub open spec fn zeros(count: nat) -> Seq<char> {
    Seq::new(count, |i: int| '0')
}

/// A number in at least `width` decimal digits, with leading zeros.
pub open spec fn padded_decimal(number: nat, width: nat) -> Seq<char> {
    let digits = decimal(number);
    if digits.len() >= width {
        digits
    } else {
        zeros((width - digits.len()) as nat) + digits
    }
}

/// The decimal digits of a number, with leading zeros up to a width.
pub fn padded_decimal_text(number: u64, width: usize) -> (res: String)
    ensures
        res@ == padded_decimal(number as nat, width as nat),
{
    let digits: String = decimal_text(number);
    let len: usize = digits.as_str().unicode_len();
    let mut res: String = String::new();
    let mut i: usize = len;
    assert(res@ =~= zeros(0));
    while i < width
        invariant
            len <= i,
            i <= width || i == len,
            res@ == zeros((i - len) as nat),
        decreases width - i,
    {
        proof {
            reveal_strlit("0");
        }
        res.append("0");
        assert(res@ =~= zeros((i + 1 - len) as nat));
        i += 1;
    }
    res.append(digits.as_str());
    assert(res@ =~= padded_decimal(number as nat, width as nat));
    res
}

/// A number is made of digits only, and of at least one.
pub proof fn lemma_decimal_digits(number: nat)
    ensures
        decimal(number).len() > 0,
        forall|i: int|
            0 <= i < decimal(number).len() ==> '0' <= #[trigger] decimal(number)[i] <= '9',
    decreases number,
{
    if number >= 10 {
        lemma_decimal_digits(number / 10);
    }
}

/// What stands between a prefix and a suffix, if a text has both.
pub open spec fn inner(text: Seq<char>, prefix: Seq<char>, suffix: Seq<char>) -> Option<Seq<char>> {
    let start = prefix.len() as int;
    let end = text.len() - suffix.len();
    if start <= end && text.subrange(0, start) == prefix && text.subrange(end, text.len() as int)
        == suffix {
        Some(text.subrange(start, end))
    } else {
        None
    }
}

/// What stands between a prefix and a suffix, if a text has both.
pub fn inner_text<'a>(text: &'a str, prefix: &str, suffix: &str) -> (res: Option<&'a str>)
    ensures
        match (res, inner(text@, prefix@, suffix@)) {
            (Some(middle), Some(expected)) => middle@ == expected,
            (None, None) => true,
            _ => false,
        },
{
    let len: usize = text.unicode_len();
    let start: usize = prefix.unicode_len();
    let suffix_len: usize = suffix.unicode_len();
    if suffix_len > len || start > len - suffix_len {
        return None;
    }
    let end: usize = len - suffix_len;
    if same_text(text.substring_char(0, start), prefix) && same_text(
        text.substring_char(end, len),
        suffix,
    ) {
        Some(text.substring_char(start, end))
    } else {
        None
    }
}

/// What was put between a prefix and a suffix is found there.
pub proof fn lemma_inner(prefix: Seq<char>, middle: Seq<char>, suffix: Seq<char>)
    ensures
        inner(prefix + middle + suffix, prefix, suffix) == Some(middle),
{
    let text = prefix + middle + suffix;
    let start = prefix.len() as int;
    let end = text.len() - suffix.len();
    assert(text.subrange(0, start) =~= prefix);
    assert(text.subrange(end, text.len() as int) =~= suffix);
    assert(text.subrange(start, end) =~= middle);
}

/// Whether two texts are the same.
pub fn same_text(a: &str, b: &str) -> (res: bool)
    ensures
        res == (a@ == b@),
{
    a.to_owned() == b.to_owned()
}

/// Whether a text is the same as another.
pub fn text_is(text: &String, other: &str) -> (res: bool)
    ensures
        res == (text@ == other@),
{
    *text == other.to_owned()
}

/// What stands between a prefix and a suffix makes up the text together with
/// them; a text without them has nothing there.
pub proof fn law_inner_makes_up_text(text: Seq<char>, prefix: Seq<char>, suffix: Seq<char>)
    ensures
        match inner(text, prefix, suffix) {
            Some(middle) => text == prefix + middle + suffix,
            None => forall|middle: Seq<char>| text != #[trigger] (prefix + middle) + suffix,
        },
{
    if let Some(middle) = inner(text, prefix, suffix) {
        let start = prefix.len() as int;
        let end = text.len() - suffix.len();
        let made = prefix + middle + suffix;
        assert(made.len() == text.len());
        assert forall|i: int| 0 <= i < text.len() implies made[i] == text[i] by {
            if i < start {
                assert(text.subrange(0, start)[i] == text[i]);
            } else if i >= end {
                assert(text.subrange(end, text.len() as int)[i - end] == text[i]);
            }
        }
        assert(made =~= text);
    } else {
        assert forall|middle: Seq<char>| text != #[trigger] (prefix + middle) + suffix by {
            lemma_inner(prefix, middle, suffix);
        }
    }
}

/// The digits of a number are those of its tenth and its last digit, and a
/// number below ten has just one.
pub proof fn law_decimal_digits(number: nat)
    ensures
        number < 10 ==> decimal(number) == seq![(48 + number) as char],
        number > 0 ==> forall|digit: nat|
            digit < 10 ==> #[trigger] decimal(10 * number + digit) == decimal(number).push(
                (48 + digit) as char,
            ),
        number > 0 ==> decimal(number)[0] != '0',
    decreases number,
{
    if number >= 10 {
        law_decimal_digits(number / 10);
        lemma_decimal_digits(number / 10);
    }
    if number > 0 {
        assert forall|digit: nat| digit < 10 implies #[trigger] decimal(10 * number + digit)
            == decimal(number).push((48 + digit) as char) by {
            assert((10 * number + digit) / 10 == number);
            assert((10 * number + digit) % 10 == digit);
        }
    }
}

/// Leading zeros fill a number up to a width, and nothing else is changed.
pub proof fn law_padded_digits(number: nat, width: nat)
    ensures
        ({
            let text = padded_decimal(number, width);
            let digits = decimal(number);
            &&& text.len() >= width
            &&& text.len() == width || text == digits
            &&& text.len() >= digits.len()
            &&& text.skip(text.len() - digits.len()) == digits
            &&& forall|i: int| 0 <= i < text.len() - digits.len() ==> #[trigger] text[i] == '0'
        }),
{
    let text = padded_decimal(number, width);
    let digits = decimal(number);
    assert(text.skip(text.len() - digits.len()) =~= digits);
}

/// A clock is read as it is, as long as it is set behind the epoch and 64 bits
/// hold its time; otherwise it shows the epoch.
pub proof fn law_clock_is_read(millis_since_epoch: Option<u128>)
    ensures
        0 <= clock_reading(millis_since_epoch) <= u64::MAX,
        millis_since_epoch is None ==> clock_reading(millis_since_epoch) == 0,
        millis_since_epoch matches Some(millis) ==> clock_reading(millis_since_epoch) == millis || (
        millis > u64::MAX && clock_reading(millis_since_epoch) == 0),
{
}

/// The first number in which two versions differ decides which is older.
pub proof fn law_versions_are_ordered(a: (i32, i32, i32), b: (i32, i32, i32))
    ensures
        ({
            let x = three_numbers(a.0, a.1, a.2);
            let y = three_numbers(b.0, b.1, b.2);
            &&& all_numbers(x)
            &&& x.len() == y.len()
            &&& numeric_order(x, y) == VersionOrder::Same <==> a == b
            &&& numeric_order(x, y) == VersionOrder::Older <==> a.0 < b.0 || (a.0 == b.0 && (a.1
                < b.1 || (a.1 == b.1 && a.2 < b.2)))
            &&& numeric_order(x, y) == VersionOrder::Newer <==> numeric_order(y, x)
                == VersionOrder::Older
        }),
{
    reveal_with_fuel(numeric_order, 4);
    let x = three_numbers(a.0, a.1, a.2);
    let y = three_numbers(b.0, b.1, b.2);
    assert(x.drop_first() =~= seq![PartView::Number(a.1), PartView::Number(a.2)]);
    assert(y.drop_first() =~= seq![PartView::Number(b.1), PartView::Number(b.2)]);
    assert(x.drop_first().drop_first() =~= seq![PartView::Number(a.2)]);
    assert(y.drop_first().drop_first() =~= seq![PartView::Number(b.2)]);
}

} // verus!
