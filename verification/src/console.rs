//! The operator console: what a line typed at the prompt asks for.
//!
//! A line is read as a sequence of characters. Places in it are counted in
//! characters, and the parts of a command are handed out as spans of
//! places, so that the caller cuts the text out of the line.

use vstd::prelude::*;
use vstd::string::*;

verus! {

/// The fee that the console offers for each created output, where none is
/// given: 0.001 STG.
pub const PAYMENT_FEE: i64 = 1_000;

/// The number of records in `show history`.
pub const CONSOLE_HISTORY_LIMIT: u64 = 50;

/// A part of a line: the places from `start` up to `end`.
#[derive(Clone, Copy, Debug, PartialEq, Eq, Structural)]
pub struct Span {
    pub start: usize,
    pub end: usize,
}

/// The kinds of character that the commands are made of.
#[derive(Clone, Copy, Debug, PartialEq, Eq, Structural)]
pub enum CharClass {
    /// White space.
    Space,
    /// Digits and letters of both cases.
    Alnum,
    /// Digits and the letters `a` to `f`.
    Hex,
    /// Digits.
    Digit,
    /// Digits and the underscore.
    Money,
    /// Anything but a slash.
    NotSlash,
    /// Anything but a line feed.
    NotNewline,
    /// The underscore.
    Underscore,
}

/// Whether a character is white space.
pub open spec fn spec_is_space(c: char) -> bool {
    let u = c as u32;
    (9 <= u <= 13) || u == 0x20 || u == 0x85 || u == 0xA0 || u == 0x1680 || (0x2000 <= u <= 0x200A)
        || u == 0x2028 || u == 0x2029 || u == 0x202F || u == 0x205F || u == 0x3000
}

/// Whether a character is a digit.
pub open spec fn spec_is_digit(c: char) -> bool {
    48 <= c as u32 <= 57
}

/// Whether a character is of a kind.
pub open spec fn spec_in_class(c: char, class: CharClass) -> bool {
    let u = c as u32;
    match class {
        CharClass::Space => spec_is_space(c),
        CharClass::Alnum => spec_is_digit(c) || (65 <= u <= 90) || (97 <= u <= 122),
        CharClass::Hex => spec_is_digit(c) || (97 <= u <= 102),
        CharClass::Digit => spec_is_digit(c),
        CharClass::Money => spec_is_digit(c) || u == 95,
        CharClass::NotSlash => u != 47,
        CharClass::NotNewline => u != 10,
        CharClass::Underscore => u == 95,
    }
}

/// Whether a character is of a kind.
pub fn in_class(c: char, class: CharClass) -> (r: bool)
    ensures
        r == spec_in_class(c, class),
{
    let u = c as u32;
    let digit = 48 <= u && u <= 57;
    match class {
        CharClass::Space => (9 <= u && u <= 13) || u == 0x20 || u == 0x85 || u == 0xA0 || u
            == 0x1680 || (0x2000 <= u && u <= 0x200A) || u == 0x2028 || u == 0x2029 || u == 0x202F
            || u == 0x205F || u == 0x3000,
        CharClass::Alnum => digit || (65 <= u && u <= 90) || (97 <= u && u <= 122),
        CharClass::Hex => digit || (97 <= u && u <= 102),
        CharClass::Digit => digit,
        CharClass::Money => digit || u == 95,
        CharClass::NotSlash => u != 47,
        CharClass::NotNewline => u != 10,
        CharClass::Underscore => u == 95,
    }
}

/// The place behind the characters of a kind that stand at place `i` and
/// behind it, without a gap, before place `b`.
pub open spec fn spec_span_end(s: Seq<char>, i: int, b: int, class: CharClass) -> int
    decreases b - i,
{
    if 0 <= i < b <= s.len() && spec_in_class(s[i], class) {
        spec_span_end(s, i + 1, b, class)
    } else {
        i
    }
}

/// A run ends within its bounds.
pub proof fn lemma_span_bounds(s: Seq<char>, i: int, b: int, class: CharClass)
    requires
        0 <= i <= b <= s.len(),
    ensures
        i <= spec_span_end(s, i, b, class) <= b,
    decreases b - i,
{
    if i < b && spec_in_class(s[i], class) {
        lemma_span_bounds(s, i + 1, b, class);
    }
}

/// The place behind the run of a kind that begins at place `i`.
pub fn span_end(s: &Vec<char>, i: usize, b: usize, class: CharClass) -> (r: usize)
    requires
        i <= b <= s@.len(),
    ensures
        r == spec_span_end(s@, i as int, b as int, class),
        i <= r <= b,
{
    let mut j = i;
    while j < b && in_class(s[j], class)
        invariant
            i <= j <= b <= s@.len(),
            spec_span_end(s@, i as int, b as int, class) == spec_span_end(s@, j as int, b as int, class),
        decreases b - j,
    {
        j = j + 1;
    }
    j
}

/// Whether the characters of `kw` stand at place `i` and behind it, before
/// place `b`.
pub open spec fn spec_at(s: Seq<char>, i: int, b: int, kw: Seq<char>) -> bool {
    0 <= i && i + kw.len() <= b <= s.len() && s.subrange(i, i + kw.len()) == kw
}

/// Whether the characters of `kw` stand at place `i` and behind it.
pub fn at(s: &Vec<char>, i: usize, b: usize, kw: &str) -> (r: bool)
    requires
        i <= b <= s@.len(),
    ensures
        r == spec_at(s@, i as int, b as int, kw@),
{
    let n = kw.unicode_len();
    if n > b - i {
        return false;
    }
    let mut j: usize = 0;
    while j < n
        invariant
            0 <= j <= n == kw@.len(),
            i + n <= b <= s@.len(),
            forall|k: int| 0 <= k < j ==> s@[i + k] == kw@[k],
        decreases n - j,
    {
        if s[i + j] != kw.get_char(j) {
            assert(s@.subrange(i as int, i + n)[j as int] != kw@[j as int]);
            return false;
        }
        j = j + 1;
    }
    assert(s@.subrange(i as int, i + n) =~= kw@);
    true
}

/// Whether the characters from place `a` up to place `b` are those of `kw`.
pub open spec fn spec_is(s: Seq<char>, a: int, b: int, kw: Seq<char>) -> bool {
    b - a == kw.len() && spec_at(s, a, b, kw)
}

/// Whether the characters from place `a` up to place `b` are those of `kw`.
pub fn is(s: &Vec<char>, a: usize, b: usize, kw: &str) -> (r: bool)
    requires
        a <= b <= s@.len(),
    ensures
        r == spec_is(s@, a as int, b as int, kw@),
{
    let n = kw.unicode_len();
    b - a == n && at(s, a, b, kw)
}

/// The characters of a line.
pub fn chars_of(line: &str) -> (r: Vec<char>)
    ensures
        r@ == line@,
{
    let n = line.unicode_len();
    let mut out: Vec<char> = Vec::new();
    let mut i: usize = 0;
    while i < n
        invariant
            0 <= i <= n == line@.len(),
            out@ == line@.take(i as int),
        decreases n - i,
    {
        out.push(line.get_char(i));
        assert(line@.take(i + 1) =~= line@.take(i as int).push(line@[i as int]));
        i = i + 1;
    }
    assert(line@.take(i as int) =~= line@);
    out
}

/// The place behind the last character of the line that is not white space.
pub open spec fn spec_trim_end(s: Seq<char>, b: int) -> int
    decreases b,
{
    if 0 < b <= s.len() && spec_is_space(s[b - 1]) {
        spec_trim_end(s, b - 1)
    } else {
        b
    }
}

/// The place behind the last character of the line that is not white space.
pub fn trim_end(s: &Vec<char>) -> (r: usize)
    ensures
        r == spec_trim_end(s@, s@.len() as int),
        r <= s@.len(),
{
    let mut b = s.len();
    while b > 0 && in_class(s[b - 1], CharClass::Space)
        invariant
            0 <= b <= s@.len(),
            spec_trim_end(s@, s@.len() as int) == spec_trim_end(s@, b as int),
        decreases b,
    {
        b = b - 1;
    }
    b
}

/// Why a text is no amount of money.
#[derive(Clone, Copy, Debug, PartialEq, Eq, Structural)]
pub enum MoneyError {
    /// No digit is left once the underscores are taken out.
    Empty,
    /// A character is neither digit nor underscore, or a sign stands alone.
    InvalidDigit,
    /// The number is greater than any amount.
    PosOverflow,
    /// The number is less than any amount.
    NegOverflow,
}

/// The number that the digits from place `a` up to place `b` spell,
/// underscores left out.
pub open spec fn spec_decimal(s: Seq<char>, a: int, b: int) -> int
    decreases b - a,
{
    if a >= b || b > s.len() || a < 0 {
        0
    } else if s[b - 1] as u32 == 95 {
        spec_decimal(s, a, b - 1)
    } else {
        spec_decimal(s, a, b - 1) * 10 + (s[b - 1] as u32 - 48)
    }
}

/// Whether every character from place `a` up to place `b` is of the kind.
pub open spec fn spec_all(s: Seq<char>, a: int, b: int, class: CharClass) -> bool {
    forall|k: int| a <= k < b ==> spec_in_class(#[trigger] s[k], class)
}

/// Whether an underscore is all that stands from place `a` up to place `b`.
pub open spec fn spec_blank(s: Seq<char>, a: int, b: int) -> bool {
    forall|k: int| a <= k < b ==> (#[trigger] s[k]) as u32 == 95
}

/// Whether a sign stands at place `a`.
pub open spec fn spec_signed(s: Seq<char>, a: int, b: int) -> bool {
    a < b && (s[a] as u32 == 43 || s[a] as u32 == 45)
}

/// The amount of money that the characters from place `a` up to place `b`
/// spell, underscores left out: an optional sign, and digits.
pub open spec fn spec_money(s: Seq<char>, a: int, b: int) -> Result<i64, MoneyError> {
    let k = spec_span_end(s, a, b, CharClass::Underscore);
    let d = if spec_signed(s, k, b) {
        k + 1
    } else {
        k
    };
    let negative = spec_signed(s, k, b) && s[k] as u32 == 45;
    if k >= b {
        Err(MoneyError::Empty)
    } else if !spec_all(s, d, b, CharClass::Money) || spec_blank(s, d, b) {
        Err(MoneyError::InvalidDigit)
    } else if !negative && spec_decimal(s, d, b) > i64::MAX {
        Err(MoneyError::PosOverflow)
    } else if negative && -spec_decimal(s, d, b) < i64::MIN {
        Err(MoneyError::NegOverflow)
    } else if negative {
        Ok((-spec_decimal(s, d, b)) as i64)
    } else {
        Ok(spec_decimal(s, d, b) as i64)
    }
}

/// The number spelled by a front part of some digits is no greater than
/// the number spelled by all of them.
pub proof fn lemma_decimal_grows(s: Seq<char>, a: int, m: int, b: int)
    requires
        0 <= a <= m <= b <= s.len(),
        spec_all(s, a, b, CharClass::Money),
    ensures
        0 <= spec_decimal(s, a, m) <= spec_decimal(s, a, b),
    decreases b - m,
{
    lemma_decimal_nonnegative(s, a, m);
    if m < b {
        lemma_decimal_grows(s, a, m, b - 1);
        lemma_decimal_nonnegative(s, a, b - 1);
        assert(spec_in_class(s[b - 1], CharClass::Money));
    }
}

/// Digits spell no negative number.
pub proof fn lemma_decimal_nonnegative(s: Seq<char>, a: int, b: int)
    requires
        0 <= a <= b <= s.len(),
        spec_all(s, a, b, CharClass::Money),
    ensures
        0 <= spec_decimal(s, a, b),
    decreases b - a,
{
    if a < b {
        lemma_decimal_nonnegative(s, a, b - 1);
        assert(spec_in_class(s[b - 1], CharClass::Money));
    }
}

/// Reads an amount of money: an optional sign and digits, between which
/// underscores may stand for the eye.
#[verifier::loop_isolation(false)]
pub fn parse_money_at(s: &Vec<char>, a: usize, b: usize) -> (r: Result<i64, MoneyError>)
    requires
        a <= b <= s@.len(),
    ensures
        r == spec_money(s@, a as int, b as int),
{
    // Without the underscores, is anything left?
    let k = span_end(s, a, b, CharClass::Underscore);
    if k == b {
        return Err(MoneyError::Empty);
    }
    let signed = s[k] as u32 == 43 || s[k] as u32 == 45;
    let negative = s[k] as u32 == 45;
    let d = if signed {
        k + 1
    } else {
        k
    };
    let mut value: u64 = 0;
    let mut any = false;
    let mut overflow = false;
    let mut i = d;
    let limit: u64 = if negative {
        0x8000_0000_0000_0000
    } else {
        0x7fff_ffff_ffff_ffff
    };
    while i < b
        invariant
            d <= i <= b <= s@.len(),
            limit == if negative { 0x8000_0000_0000_0000u64 } else { 0x7fff_ffff_ffff_ffffu64 },
            spec_all(s@, d as int, i as int, CharClass::Money),
            any == !spec_blank(s@, d as int, i as int),
            !overflow ==> value == spec_decimal(s@, d as int, i as int) && value <= limit,
            overflow ==> spec_decimal(s@, d as int, i as int) > limit,
        decreases b - i,
    {
        let c = s[i];
        if !in_class(c, CharClass::Money) {
            assert(!spec_all(s@, d as int, b as int, CharClass::Money));
            return Err(MoneyError::InvalidDigit);
        }
        proof {
            lemma_decimal_nonnegative(s@, d as int, i as int);
            assert(spec_all(s@, d as int, i + 1, CharClass::Money));
        }
        if c as u32 != 95 {
            any = true;
            let digit = (c as u32 - 48) as u64;
            if !overflow {
                if value > (limit - digit) / 10 {
                    overflow = true;
                } else {
                    value = value * 10 + digit;
                }
            }
        }
        proof {
            if c as u32 == 95 {
                assert(spec_blank(s@, d as int, i + 1) == spec_blank(s@, d as int, i as int)) by {
                    if spec_blank(s@, d as int, i as int) {
                        assert forall|j: int| d <= j < i + 1 implies (#[trigger] s@[j]) as u32
                            == 95 by {}
                    }
                }
            } else {
                assert(!spec_blank(s@, d as int, i + 1)) by {
                    assert(s@[i as int] as u32 != 95);
                }
            }
        }
        i = i + 1;
    }
    if !any {
        return Err(MoneyError::InvalidDigit);
    }
    if overflow {
        if negative {
            return Err(MoneyError::NegOverflow);
        } else {
            return Err(MoneyError::PosOverflow);
        }
    }
    if negative {
        if value == 0x8000_0000_0000_0000 {
            Ok(i64::MIN)
        } else {
            Ok(-(value as i64))
        }
    } else {
        Ok(value as i64)
    }
}

/// Reads an amount of money from a text of its own.
pub fn parse_money(amount: &str) -> (r: Result<i64, MoneyError>)
    ensures
        r == spec_money(amount@, 0, amount@.len() as int),
{
    let s = chars_of(amount);
    parse_money_at(&s, 0, s.len())
}

/// The span from place `a` up to place `b`.
pub open spec fn spec_span(a: int, b: int) -> Span {
    Span { start: a as usize, end: b as usize }
}

/// White space, if any, and then a word of a kind, from place `p` on: the
/// places at which the word begins and ends. Nothing without a word.
pub open spec fn spec_token(s: Seq<char>, p: int, b: int, class: CharClass) -> Option<(int, int)> {
    let a = spec_span_end(s, p, b, CharClass::Space);
    let e = spec_span_end(s, a, b, class);
    if e > a {
        Some((a, e))
    } else {
        None
    }
}

/// White space from place `p` on: the place behind it. Nothing without
/// white space.
pub open spec fn spec_gap(s: Seq<char>, p: int, b: int) -> Option<int> {
    let e = spec_span_end(s, p, b, CharClass::Space);
    if e > p {
        Some(e)
    } else {
        None
    }
}

/// Whether no line feed stands from place `p` up to place `b`.
pub open spec fn spec_one_line(s: Seq<char>, p: int, b: int) -> bool {
    spec_span_end(s, p, b, CharClass::NotNewline) == b
}

/// Reads white space, if any, and then a word of a kind.
pub fn token(s: &Vec<char>, p: usize, b: usize, class: CharClass) -> (r: Option<(usize, usize)>)
    requires
        p <= b <= s@.len(),
    ensures
        r is Some == spec_token(s@, p as int, b as int, class) is Some,
        r matches Some(t) ==> spec_token(s@, p as int, b as int, class) == Some(
            (t.0 as int, t.1 as int),
        ) && p <= t.0 < t.1 <= b,
{
    let a = span_end(s, p, b, CharClass::Space);
    let e = span_end(s, a, b, class);
    if e > a {
        Some((a, e))
    } else {
        None
    }
}

/// Reads white space.
pub fn gap(s: &Vec<char>, p: usize, b: usize) -> (r: Option<usize>)
    requires
        p <= b <= s@.len(),
    ensures
        r is Some == spec_gap(s@, p as int, b as int) is Some,
        r matches Some(e) ==> spec_gap(s@, p as int, b as int) == Some(e as int) && p < e <= b,
{
    let e = span_end(s, p, b, CharClass::Space);
    if e > p {
        Some(e)
    } else {
        None
    }
}

/// Whether no line feed stands from place `p` up to place `b`.
pub fn one_line(s: &Vec<char>, p: usize, b: usize) -> (r: bool)
    requires
        p <= b <= s@.len(),
    ensures
        r == spec_one_line(s@, p as int, b as int),
{
    span_end(s, p, b, CharClass::NotNewline) == b
}

/// The number that the digits from place `a` up to place `b` spell, where
/// it is no greater than `max`.
pub open spec fn spec_number(s: Seq<char>, a: int, b: int, max: u64) -> Option<u64> {
    if spec_decimal(s, a, b) <= max {
        Some(spec_decimal(s, a, b) as u64)
    } else {
        None
    }
}

/// Reads a number from digits.
#[verifier::loop_isolation(false)]
pub fn number(s: &Vec<char>, a: usize, b: usize, max: u64) -> (r: Option<u64>)
    requires
        a <= b <= s@.len(),
        spec_all(s@, a as int, b as int, CharClass::Digit),
    ensures
        r == spec_number(s@, a as int, b as int, max),
{
    let mut value: u64 = 0;
    let mut i = a;
    proof {
        assert forall|k: int| a <= k < b implies spec_in_class(#[trigger] s@[k], CharClass::Money) by {
            assert(spec_in_class(s@[k], CharClass::Digit));
        }
    }
    while i < b
        invariant
            a <= i <= b <= s@.len(),
            value == spec_decimal(s@, a as int, i as int),
            value <= max,
        decreases b - i,
    {
        let c = s[i];
        assert(spec_in_class(s@[i as int], CharClass::Digit));
        let digit = (c as u32 - 48) as u64;
        if digit > max || value > (max - digit) / 10 {
            proof {
                lemma_decimal_grows(s@, a as int, i + 1, b as int);
            }
            return None;
        }
        value = value * 10 + digit;
        i = i + 1;
    }
    Some(value)
}

/// A run of characters of a kind holds characters of that kind only.
pub proof fn lemma_span_all(s: Seq<char>, i: int, b: int, class: CharClass)
    requires
        0 <= i <= b <= s.len(),
    ensures
        spec_all(s, i, spec_span_end(s, i, b, class), class),
    decreases b - i,
{
    if i < b && spec_in_class(s[i], class) {
        lemma_span_all(s, i + 1, b, class);
    }
}

/// The help screens of the console.
#[derive(Clone, Copy, Debug, PartialEq, Eq, Structural)]
pub enum HelpTopic {
    General,
    Publish,
    Send,
    Pay,
    StakeRemote,
    Stake,
    ValidateCertificate,
    Unstake,
    Msg,
    Use,
    ShowBlock,
    SubscribeChain,
}

/// What the console holds against a command before it shows the help.
#[derive(Clone, Copy, Debug, PartialEq, Eq, Structural)]
pub enum Complaint {
    /// The amount is no amount of money.
    InvalidAmount { text: Span, error: MoneyError },
    /// The fee is no amount of money.
    InvalidFee { text: Span, error: MoneyError },
    /// The amount to stake or unstake is no amount of money.
    Money { error: MoneyError },
}

/// Why a command fails outright.
#[derive(Clone, Copy, Debug, PartialEq, Eq, Structural)]
pub enum InputError {
    /// Snowball is not supported for public payments.
    SnowballPublic,
    /// Certificate is not supported for public payments.
    CertificatePublic,
    /// Snowball with certificate is not supported.
    SnowballCertificate,
    /// Public payments do not support comments.
    PublicComment,
    /// An epoch or an offset is too large a number.
    NumberTooLarge,
}

/// What the console sends to the node.
#[derive(Clone, Copy, Debug, PartialEq, Eq, Structural)]
pub enum Request {
    Seal,
    PublishBroadcast { topic: Span, data: Span },
    SendUnicast { to: Span, topic: Span, data: Span },
    ConnectedNodes,
    Payment { recipient: Span, amount: i64, payment_fee: i64, comment: Span, with_certificate: bool },
    SecurePayment { recipient: Span, amount: i64, payment_fee: i64, comment: Span },
    PublicPayment { recipient: Span, amount: i64, payment_fee: i64 },
    ValidateCertificate { utxo: Span, spender: Span, recipient: Span, rvalue: Span },
    StakeAll { payment_fee: i64 },
    StakeRemote { amount: i64, payment_fee: i64 },
    Stake { amount: i64, payment_fee: i64 },
    UnstakeAll { payment_fee: i64 },
    Unstake { amount: i64, payment_fee: i64 },
    RestakeAll,
    CloakAll { payment_fee: i64 },
    VersionInfo,
    ValidatorsInfo,
    AccountInfo,
    BalanceInfo,
    ElectionInfo,
    EscrowInfo,
    ReplicationInfo,
    ChangeUpstream,
    UnspentInfo,
    GetRecovery,
    MicroBlockInfo { epoch: u64, offset: u32 },
    MacroBlockInfo { epoch: u64 },
    SubscribeChain { epoch: u64, offset: u32 },
    StatusInfo,
    SubscribeStatus,
    AccountsInfo,
    PopMicroBlock,
    EnableRestaking,
    DisableRestaking,
}

/// What the console has to ask the operator before it can send.
#[derive(Clone, Copy, Debug, PartialEq, Eq, Structural)]
pub enum Prompt {
    /// The password of the account, to unseal it.
    Unseal,
    /// A new password, twice, for a new account.
    CreateAccount,
    /// The recovery phrase and a new password, twice.
    RecoverAccount,
    /// A new password, twice.
    ChangePassword,
    /// The word YES, to delete the account.
    DeleteAccount,
}

/// What a line typed at the prompt asks for.
#[derive(Clone, Copy, Debug, PartialEq, Eq, Structural)]
pub enum Parsed {
    /// The help screen is shown.
    Help(HelpTopic),
    /// A complaint is printed, and then a help screen is shown.
    Complain { what: Complaint, topic: HelpTopic },
    /// The command fails.
    Fail(InputError),
    /// The request is sent.
    Send(Request),
    /// The console switches to another account.
    Use { account_id: Span },
    /// The operator is asked, and then a request is sent.
    Ask(Prompt),
    /// The history of the account is asked for, from the time that the
    /// text says; without text, from a day ago.
    History { since: Span },
}

impl Parsed {
    /// Whether the prompt comes back at once: not while an answer of the
    /// node is awaited.
    pub open spec fn spec_returns_prompt(self) -> bool {
        match self {
            Parsed::Help(_) => true,
            Parsed::Complain { .. } => true,
            Parsed::Fail(_) => true,
            Parsed::Use { .. } => true,
            Parsed::Send(Request::VersionInfo) => true,
            Parsed::Send(Request::ValidatorsInfo) => true,
            _ => false,
        }
    }

    /// Whether the prompt comes back at once.
    pub fn returns_prompt(&self) -> (r: bool)
        ensures
            r == self.spec_returns_prompt(),
    {
        match self {
            Parsed::Help(_) => true,
            Parsed::Complain { .. } => true,
            Parsed::Fail(_) => true,
            Parsed::Use { .. } => true,
            Parsed::Send(Request::VersionInfo) => true,
            Parsed::Send(Request::ValidatorsInfo) => true,
            _ => false,
        }
    }
}

/// What stands behind the amount of a `pay` command.
#[derive(Clone, Copy, Debug, PartialEq, Eq, Structural)]
pub struct PayArguments {
    pub public: bool,
    pub snowball: bool,
    /// The purpose of the payment; empty where none is given.
    pub comment: Span,
    /// The digits of the fee, where one is given.
    pub fee: Option<Span>,
    pub certificate: bool,
}

/// White space and then an option, from place `p` on: the place behind the
/// option.
pub open spec fn spec_option(s: Seq<char>, p: int, b: int, kw: Seq<char>) -> Option<int> {
    match spec_gap(s, p, b) {
        Some(q) => if spec_at(s, q, b, kw) {
            Some(q + kw.len())
        } else {
            None
        },
        None => None,
    }
}

/// Reads white space and then an option.
pub fn option(s: &Vec<char>, p: usize, b: usize, kw: &str) -> (r: Option<usize>)
    requires
        p <= b <= s@.len(),
    ensures
        r is Some == spec_option(s@, p as int, b as int, kw@) is Some,
        r matches Some(e) ==> spec_option(s@, p as int, b as int, kw@) == Some(e as int) && p < e
            <= b,
{
    match gap(s, p, b) {
        Some(q) => {
            if at(s, q, b, kw) {
                Some(q + kw.unicode_len())
            } else {
                None
            }
        },
        None => None,
    }
}

/// The purpose of a payment, from place `p` on: where it begins, and where
/// it ends. It stands behind white space and holds no slash; white space
/// before an option does not belong to it. Where three or more characters
/// of white space stand before an option, and nothing else, the second of
/// them is taken for the purpose.
pub open spec fn spec_comment(s: Seq<char>, p: int, b: int) -> Option<(int, int)> {
    let q = spec_span_end(s, p, b, CharClass::Space);
    if q == p {
        None
    } else if q < b && s[q] as u32 != 47 {
        let f = spec_span_end(s, q, b, CharClass::NotSlash);
        if f == b {
            Some((q, b))
        } else {
            let e = spec_trim_end(s.subrange(0, f), f);
            if e < f {
                Some((q, e))
            } else {
                None
            }
        }
    } else if q < b && q - p >= 3 {
        Some((p + 1, p + 2))
    } else {
        None
    }
}

/// The fee of a payment, from place `p` on: where its digits begin and
/// end. It stands behind white space, the option `/fee` and one character
/// of white space, and has up to 25 digits and underscores.
pub open spec fn spec_fee(s: Seq<char>, p: int, b: int) -> Option<(int, int)> {
    match spec_option(s, p, b, "/fee"@) {
        Some(q) => if q < b && spec_is_space(s[q]) {
            let e = spec_span_end(s, q + 1, b, CharClass::Money);
            if e > q + 1 && e - (q + 1) <= 25 {
                Some((q + 1, e))
            } else {
                None
            }
        } else {
            None
        },
        None => None,
    }
}

/// What stands behind the amount of a `pay` command, from place `p` up to
/// place `b`: the options `/public` and `/snowball`, the purpose, the fee
/// and the option `/certificate`, each at most once and in this order.
pub open spec fn spec_pay_arguments(s: Seq<char>, p: int, b: int) -> Option<PayArguments> {
    let (public, p1) = match spec_option(s, p, b, "/public"@) {
        Some(e) => (true, e),
        None => (false, p),
    };
    let (snowball, p2) = match spec_option(s, p1, b, "/snowball"@) {
        Some(e) => (true, e),
        None => (false, p1),
    };
    let (comment, p3) = match spec_comment(s, p2, b) {
        Some((x, y)) => (spec_span(x, y), y),
        None => (spec_span(p2, p2), p2),
    };
    let (fee, p4) = match spec_fee(s, p3, b) {
        Some((x, y)) => (Some(spec_span(x, y)), y),
        None => (None, p3),
    };
    let (certificate, p5) = match spec_option(s, p4, b, "/certificate"@) {
        Some(e) => (true, e),
        None => (false, p4),
    };
    if p5 == b {
        Some(PayArguments { public, snowball, comment, fee, certificate })
    } else {
        None
    }
}

/// The place behind the last character before place `f` that is not white
/// space, in the line itself.
pub proof fn lemma_trim_end_prefix(s: Seq<char>, f: int, b: int)
    requires
        0 <= b <= f <= s.len(),
    ensures
        spec_trim_end(s.subrange(0, f), b) == spec_trim_end(s, b),
    decreases b,
{
    if 0 < b && spec_is_space(s[b - 1]) {
        assert(s.subrange(0, f)[b - 1] == s[b - 1]);
        lemma_trim_end_prefix(s, f, b - 1);
    } else if 0 < b {
        assert(s.subrange(0, f)[b - 1] == s[b - 1]);
    }
}

/// The place behind the last character before place `f` that is not white space.
pub fn trim_end_before(s: &Vec<char>, f: usize) -> (r: usize)
    requires
        f <= s@.len(),
    ensures
        r == spec_trim_end(s@.subrange(0, f as int), f as int),
        r <= f,
{
    let mut e = f;
    proof {
        lemma_trim_end_prefix(s@, f as int, f as int);
    }
    while e > 0 && in_class(s[e - 1], CharClass::Space)
        invariant
            0 <= e <= f <= s@.len(),
            spec_trim_end(s@, f as int) == spec_trim_end(s@, e as int),
        decreases e,
    {
        e = e - 1;
    }
    e
}

/// Reads the purpose of a payment.
pub fn comment(s: &Vec<char>, p: usize, b: usize) -> (r: Option<(usize, usize)>)
    requires
        p <= b <= s@.len(),
    ensures
        r is Some == spec_comment(s@, p as int, b as int) is Some,
        r matches Some(t) ==> spec_comment(s@, p as int, b as int) == Some((t.0 as int, t.1 as int))
            && p <= t.0 <= t.1 <= b,
{
    let q = span_end(s, p, b, CharClass::Space);
    if q == p {
        None
    } else if q < b && s[q] as u32 != 47 {
        let f = span_end(s, q, b, CharClass::NotSlash);
        if f == b {
            Some((q, b))
        } else {
            let e = trim_end_before(s, f);
            proof {
                // The purpose begins with a character that is not white space.
                assert(spec_in_class(s@[q as int], CharClass::NotSlash));
                lemma_span_bounds(s@, q + 1, b as int, CharClass::NotSlash);
                lemma_comment_start(s@, p as int, q as int, f as int, b as int);
            }
            if e < f {
                Some((q, e))
            } else {
                None
            }
        }
    } else if q < b && q - p >= 3 {
        Some((p + 1, p + 2))
    } else {
        None
    }
}

/// The white space before an option ends behind the first character of
/// the purpose.
pub proof fn lemma_comment_start(s: Seq<char>, p: int, q: int, f: int, b: int)
    requires
        0 <= p <= q < f <= b <= s.len(),
        q == spec_span_end(s, p, b, CharClass::Space),
    ensures
        spec_trim_end(s.subrange(0, f), f) > q,
{
    lemma_span_stops(s, p, b, CharClass::Space);
    assert(!spec_is_space(s[q]));
    lemma_trim_end_prefix(s, f, f);
    lemma_trim_end_after(s, q, f);
}

/// A run stops before a character that is not of its kind.
pub proof fn lemma_span_stops(s: Seq<char>, i: int, b: int, class: CharClass)
    requires
        0 <= i <= b <= s.len(),
    ensures
        spec_span_end(s, i, b, class) < b ==> !spec_in_class(s[spec_span_end(s, i, b, class)], class),
    decreases b - i,
{
    if i < b && spec_in_class(s[i], class) {
        lemma_span_stops(s, i + 1, b, class);
    }
}

/// Trimming the end stops behind a character that is not white space.
pub proof fn lemma_trim_end_after(s: Seq<char>, q: int, f: int)
    requires
        0 <= q < f <= s.len(),
        !spec_is_space(s[q]),
    ensures
        spec_trim_end(s, f) > q,
    decreases f,
{
    if spec_is_space(s[f - 1]) {
        lemma_trim_end_after(s, q, f - 1);
    }
}

/// Reads the fee of a payment.
pub fn fee(s: &Vec<char>, p: usize, b: usize) -> (r: Option<(usize, usize)>)
    requires
        p <= b <= s@.len(),
    ensures
        r is Some == spec_fee(s@, p as int, b as int) is Some,
        r matches Some(t) ==> spec_fee(s@, p as int, b as int) == Some((t.0 as int, t.1 as int))
            && p <= t.0 <= t.1 <= b,
{
    match option(s, p, b, "/fee") {
        Some(q) => {
            if q < b && in_class(s[q], CharClass::Space) {
                let e = span_end(s, q + 1, b, CharClass::Money);
                if e > q + 1 && e - (q + 1) <= 25 {
                    Some((q + 1, e))
                } else {
                    None
                }
            } else {
                None
            }
        },
        None => None,
    }
}

/// Reads what stands behind the amount of a `pay` command.
pub fn pay_arguments(s: &Vec<char>, p: usize, b: usize) -> (r: Option<PayArguments>)
    requires
        p <= b <= s@.len(),
    ensures
        r == spec_pay_arguments(s@, p as int, b as int),
{
    let (public, p1) = match option(s, p, b, "/public") {
        Some(e) => (true, e),
        None => (false, p),
    };
    let (snowball, p2) = match option(s, p1, b, "/snowball") {
        Some(e) => (true, e),
        None => (false, p1),
    };
    let (comment, p3) = match comment(s, p2, b) {
        Some((x, y)) => (Span { start: x, end: y }, y),
        None => (Span { start: p2, end: p2 }, p2),
    };
    let (fee, p4) = match fee(s, p3, b) {
        Some((x, y)) => (Some(Span { start: x, end: y }), y),
        None => (None, p3),
    };
    let (certificate, p5) = match option(s, p4, b, "/certificate") {
        Some(e) => (true, e),
        None => (false, p4),
    };
    if p5 == b {
        Some(PayArguments { public, snowball, comment, fee, certificate })
    } else {
        None
    }
}

/// What `pay`, with what stands behind it from place `p` up to place `b`,
/// asks for: `ADDRESS AMOUNT [/public] [/snowball] [COMMENT] [/fee FEE]
/// [/certificate]`.
pub open spec fn spec_pay(s: Seq<char>, p: int, b: int) -> Parsed {
    match spec_token(s, p, b, CharClass::Alnum) {
        None => Parsed::Help(HelpTopic::Pay),
        Some((x, y)) => match spec_gap(s, y, b) {
            None => Parsed::Help(HelpTopic::Pay),
            Some(c) => {
                let n0 = spec_span_end(s, c, b, CharClass::Money);
                let n = if n0 - c > 25 {
                    c + 25
                } else {
                    n0
                };
                if n == c || !spec_one_line(s, n, b) {
                    Parsed::Help(HelpTopic::Pay)
                } else {
                    match spec_money(s, c, n) {
                        Err(error) => Parsed::Complain {
                            what: Complaint::InvalidAmount { text: spec_span(c, n), error },
                            topic: HelpTopic::Pay,
                        },
                        Ok(amount) => {
                            let args = if n == b {
                                Some(
                                    PayArguments {
                                        public: false,
                                        snowball: false,
                                        comment: spec_span(b, b),
                                        fee: None,
                                        certificate: false,
                                    },
                                )
                            } else {
                                spec_pay_arguments(s, n, b)
                            };
                            match args {
                                None => Parsed::Help(HelpTopic::Pay),
                                Some(args) => spec_payment(s, spec_span(x, y), amount, args),
                            }
                        },
                    }
                }
            },
        },
    }
}

/// The payment that a `pay` command asks for, once its parts are known.
pub open spec fn spec_payment(s: Seq<char>, recipient: Span, amount: i64, args: PayArguments) -> Parsed {
    let fee = match args.fee {
        Some(f) => spec_money(s, f.start as int, f.end as int),
        None => Ok(PAYMENT_FEE),
    };
    match fee {
        Err(error) => Parsed::Complain {
            what: Complaint::InvalidFee { text: args.fee->0, error },
            topic: HelpTopic::Pay,
        },
        Ok(payment_fee) => if args.public && args.snowball {
            Parsed::Fail(InputError::SnowballPublic)
        } else if args.public && args.certificate {
            Parsed::Fail(InputError::CertificatePublic)
        } else if args.snowball && args.certificate {
            Parsed::Fail(InputError::SnowballCertificate)
        } else if args.public && args.comment.start != args.comment.end {
            Parsed::Fail(InputError::PublicComment)
        } else if args.snowball {
            Parsed::Send(
                Request::SecurePayment { recipient, amount, payment_fee, comment: args.comment },
            )
        } else if args.public {
            Parsed::Send(Request::PublicPayment { recipient, amount, payment_fee })
        } else {
            Parsed::Send(
                Request::Payment {
                    recipient,
                    amount,
                    payment_fee,
                    comment: args.comment,
                    with_certificate: args.certificate,
                },
            )
        },
    }
}

/// The payment that a `pay` command asks for, once its parts are known.
pub fn payment(s: &Vec<char>, recipient: Span, amount: i64, args: PayArguments) -> (r: Parsed)
    requires
        args.fee matches Some(f) ==> f.start <= f.end <= s@.len(),
    ensures
        r == spec_payment(s@, recipient, amount, args),
{
    let payment_fee = match args.fee {
        Some(f) => match parse_money_at(s, f.start, f.end) {
            Ok(fee) => fee,
            Err(error) => {
                return Parsed::Complain {
                    what: Complaint::InvalidFee { text: f, error },
                    topic: HelpTopic::Pay,
                };
            },
        },
        None => PAYMENT_FEE,  // use the default value.
    };
    if args.public && args.snowball {
        Parsed::Fail(InputError::SnowballPublic)
    } else if args.public && args.certificate {
        Parsed::Fail(InputError::CertificatePublic)
    } else if args.snowball && args.certificate {
        Parsed::Fail(InputError::SnowballCertificate)
    } else if args.public && args.comment.start != args.comment.end {
        Parsed::Fail(InputError::PublicComment)
    } else if args.snowball {
        Parsed::Send(Request::SecurePayment { recipient, amount, payment_fee, comment: args.comment })
    } else if args.public {
        Parsed::Send(Request::PublicPayment { recipient, amount, payment_fee })
    } else {
        Parsed::Send(
            Request::Payment {
                recipient,
                amount,
                payment_fee,
                comment: args.comment,
                with_certificate: args.certificate,
            },
        )
    }
}

/// Reads what stands behind `pay`.
pub fn pay(s: &Vec<char>, p: usize, b: usize) -> (r: Parsed)
    requires
        p <= b <= s@.len(),
    ensures
        r == spec_pay(s@, p as int, b as int),
{
    let (x, y) = match token(s, p, b, CharClass::Alnum) {
        None => {
            return Parsed::Help(HelpTopic::Pay);
        },
        Some(t) => t,
    };
    let c = match gap(s, y, b) {
        None => {
            return Parsed::Help(HelpTopic::Pay);
        },
        Some(c) => c,
    };
    let n0 = span_end(s, c, b, CharClass::Money);
    let n = if n0 - c > 25 {
        c + 25
    } else {
        n0
    };
    if n == c || !one_line(s, n, b) {
        return Parsed::Help(HelpTopic::Pay);
    }
    let amount = match parse_money_at(s, c, n) {
        Ok(amount) => amount,
        Err(error) => {
            return Parsed::Complain {
                what: Complaint::InvalidAmount { text: Span { start: c, end: n }, error },
                topic: HelpTopic::Pay,
            };
        },
    };
    let args = if n == b {
        PayArguments {
            public: false,
            snowball: false,
            comment: Span { start: b, end: b },
            fee: None,
            certificate: false,
        }
    } else {
        match pay_arguments(s, n, b) {
            None => {
                return Parsed::Help(HelpTopic::Pay);
            },
            Some(args) => {
                proof {
                    lemma_pay_arguments_fee(s@, n as int, b as int);
                }
                args
            },
        }
    };
    payment(s, Span { start: x, end: y }, amount, args)
}

/// The digits of a fee lie within the line.
pub proof fn lemma_pay_arguments_fee(s: Seq<char>, p: int, b: int)
    requires
        0 <= p <= b <= s.len(),
        b <= usize::MAX,
    ensures
        spec_pay_arguments(s, p, b) matches Some(args) ==> (args.fee matches Some(f) ==> f.start
            <= f.end <= s.len()),
{
    let p1 = match spec_option(s, p, b, "/public"@) {
        Some(e) => e,
        None => p,
    };
    lemma_span_bounds(s, p, b, CharClass::Space);
    let p2 = match spec_option(s, p1, b, "/snowball"@) {
        Some(e) => e,
        None => p1,
    };
    if 0 <= p1 <= b {
        lemma_span_bounds(s, p1, b, CharClass::Space);
    }
    if 0 <= p2 <= b {
        lemma_span_bounds(s, p2, b, CharClass::Space);
        let q = spec_span_end(s, p2, b, CharClass::Space);
        lemma_span_bounds(s, q, b, CharClass::NotSlash);
        let p3 = match spec_comment(s, p2, b) {
            Some((x, y)) => y,
            None => p2,
        };
        if 0 <= p3 <= b {
            lemma_span_bounds(s, p3, b, CharClass::Space);
            match spec_option(s, p3, b, "/fee"@) {
                Some(q4) => {
                    if q4 + 1 <= b {
                        lemma_span_bounds(s, q4 + 1, b, CharClass::Money);
                    }
                },
                None => {},
            }
        }
    }
}

/// What `msg`, with what stands behind it, asks for: `ADDRESS MESSAGE`.
pub open spec fn spec_msg(s: Seq<char>, p: int, b: int) -> Parsed {
    match spec_token(s, p, b, CharClass::Hex) {
        None => Parsed::Help(HelpTopic::Msg),
        Some((x, y)) => match spec_gap(s, y, b) {
            None => Parsed::Help(HelpTopic::Msg),
            Some(c) => if c < b && spec_one_line(s, c, b) {
                Parsed::Send(
                    Request::Payment {
                        recipient: spec_span(x, y),
                        amount: 0,
                        payment_fee: PAYMENT_FEE,
                        comment: spec_span(c, b),
                        with_certificate: false,
                    },
                )
            } else {
                Parsed::Help(HelpTopic::Msg)
            },
        },
    }
}

/// Reads what stands behind `msg`.
pub fn msg(s: &Vec<char>, p: usize, b: usize) -> (r: Parsed)
    requires
        p <= b <= s@.len(),
    ensures
        r == spec_msg(s@, p as int, b as int),
{
    match token(s, p, b, CharClass::Hex) {
        None => Parsed::Help(HelpTopic::Msg),
        Some((x, y)) => match gap(s, y, b) {
            None => Parsed::Help(HelpTopic::Msg),
            Some(c) => if c < b && one_line(s, c, b) {
                Parsed::Send(
                    Request::Payment {
                        recipient: Span { start: x, end: y },
                        amount: 0,
                        payment_fee: PAYMENT_FEE,
                        comment: Span { start: c, end: b },
                        with_certificate: false,
                    },
                )
            } else {
                Parsed::Help(HelpTopic::Msg)
            },
        },
    }
}

/// The amount that stands alone from place `p` up to place `b`: up to 25
/// digits and underscores. Nothing, where something else stands there.
pub open spec fn spec_amount(s: Seq<char>, p: int, b: int) -> Option<Result<i64, MoneyError>> {
    match spec_token(s, p, b, CharClass::Money) {
        Some((x, y)) => if y == b && y - x <= 25 {
            Some(spec_money(s, x, y))
        } else {
            None
        },
        None => None,
    }
}

/// Reads an amount that stands alone.
pub fn amount(s: &Vec<char>, p: usize, b: usize) -> (r: Option<Result<i64, MoneyError>>)
    requires
        p <= b <= s@.len(),
    ensures
        r == spec_amount(s@, p as int, b as int),
{
    match token(s, p, b, CharClass::Money) {
        Some((x, y)) => if y == b && y - x <= 25 {
            Some(parse_money_at(s, x, y))
        } else {
            None
        },
        None => None,
    }
}

/// An epoch, and behind it an offset where one is given, from place `p` up
/// to place `b`: the digits of each. Nothing, where something else stands
/// there.
pub open spec fn spec_place(s: Seq<char>, p: int, b: int) -> Option<(Span, Option<Span>)> {
    match spec_token(s, p, b, CharClass::Digit) {
        None => None,
        Some((x, y)) => if y == b {
            Some((spec_span(x, y), None))
        } else {
            match spec_gap(s, y, b) {
                None => None,
                Some(c) => {
                    let e = spec_span_end(s, c, b, CharClass::Digit);
                    if e > c && e == b {
                        Some((spec_span(x, y), Some(spec_span(c, e))))
                    } else {
                        None
                    }
                },
            }
        },
    }
}

/// Reads an epoch and, where one is given, an offset.
pub fn place(s: &Vec<char>, p: usize, b: usize) -> (r: Option<(Span, Option<Span>)>)
    requires
        p <= b <= s@.len(),
    ensures
        r == spec_place(s@, p as int, b as int),
        r matches Some(t) ==> t.0.start <= t.0.end <= s@.len() && spec_all(
            s@,
            t.0.start as int,
            t.0.end as int,
            CharClass::Digit,
        ) && (t.1 matches Some(o) ==> o.start <= o.end <= s@.len() && spec_all(
            s@,
            o.start as int,
            o.end as int,
            CharClass::Digit,
        )),
{
    match token(s, p, b, CharClass::Digit) {
        None => None,
        Some((x, y)) => {
            proof {
                lemma_span_all(s@, x as int, b as int, CharClass::Digit);
            }
            if y == b {
                Some((Span { start: x, end: y }, None))
            } else {
                match gap(s, y, b) {
                    None => None,
                    Some(c) => {
                        let e = span_end(s, c, b, CharClass::Digit);
                        proof {
                            lemma_span_all(s@, c as int, b as int, CharClass::Digit);
                        }
                        if e > c && e == b {
                            Some((Span { start: x, end: y }, Some(Span { start: c, end: e })))
                        } else {
                            None
                        }
                    },
                }
            }
        },
    }
}

/// What `show block` asks for: a macro block by its epoch, or a micro
/// block by epoch and offset.
pub open spec fn spec_show_block(s: Seq<char>, p: int, b: int) -> Parsed {
    match spec_place(s, p, b) {
        None => Parsed::Help(HelpTopic::ShowBlock),
        Some((e, None)) => match spec_number(s, e.start as int, e.end as int, u64::MAX) {
            Some(epoch) => Parsed::Send(Request::MacroBlockInfo { epoch }),
            None => Parsed::Fail(InputError::NumberTooLarge),
        },
        Some((e, Some(o))) => match (
            spec_number(s, e.start as int, e.end as int, u64::MAX),
            spec_number(s, o.start as int, o.end as int, u32::MAX as u64),
        ) {
            (Some(epoch), Some(offset)) => Parsed::Send(
                Request::MicroBlockInfo { epoch, offset: offset as u32 },
            ),
            _ => Parsed::Fail(InputError::NumberTooLarge),
        },
    }
}

/// What `subscribe chain` asks for: the blocks from a place on; without
/// offset, from the start of the epoch.
pub open spec fn spec_subscribe_chain(s: Seq<char>, p: int, b: int) -> Parsed {
    match spec_place(s, p, b) {
        None => Parsed::Help(HelpTopic::SubscribeChain),
        Some((e, o)) => match (
            spec_number(s, e.start as int, e.end as int, u64::MAX),
            match o {
                Some(o) => spec_number(s, o.start as int, o.end as int, u32::MAX as u64),
                None => Some(0u64),
            },
        ) {
            (Some(epoch), Some(offset)) => Parsed::Send(
                Request::SubscribeChain { epoch, offset: offset as u32 },
            ),
            _ => Parsed::Fail(InputError::NumberTooLarge),
        },
    }
}

/// Reads what stands behind `show block`.
pub fn show_block(s: &Vec<char>, p: usize, b: usize) -> (r: Parsed)
    requires
        p <= b <= s@.len(),
    ensures
        r == spec_show_block(s@, p as int, b as int),
{
    match place(s, p, b) {
        None => Parsed::Help(HelpTopic::ShowBlock),
        Some((e, None)) => match number(s, e.start, e.end, u64::MAX) {
            Some(epoch) => Parsed::Send(Request::MacroBlockInfo { epoch }),
            None => Parsed::Fail(InputError::NumberTooLarge),
        },
        Some((e, Some(o))) => {
            let epoch = number(s, e.start, e.end, u64::MAX);
            let offset = number(s, o.start, o.end, u32::MAX as u64);
            match (epoch, offset) {
                (Some(epoch), Some(offset)) => Parsed::Send(
                    Request::MicroBlockInfo { epoch, offset: offset as u32 },
                ),
                _ => Parsed::Fail(InputError::NumberTooLarge),
            }
        },
    }
}

/// Reads what stands behind `subscribe chain`.
pub fn subscribe_chain(s: &Vec<char>, p: usize, b: usize) -> (r: Parsed)
    requires
        p <= b <= s@.len(),
    ensures
        r == spec_subscribe_chain(s@, p as int, b as int),
{
    match place(s, p, b) {
        None => Parsed::Help(HelpTopic::SubscribeChain),
        Some((e, o)) => {
            let epoch = number(s, e.start, e.end, u64::MAX);
            let offset = match o {
                Some(o) => number(s, o.start, o.end, u32::MAX as u64),
                None => Some(0u64),
            };
            match (epoch, offset) {
                (Some(epoch), Some(offset)) => Parsed::Send(
                    Request::SubscribeChain { epoch, offset: offset as u32 },
                ),
                _ => Parsed::Fail(InputError::NumberTooLarge),
            }
        },
    }
}

/// What `net publish` asks for: `TOPIC MESSAGE`.
pub open spec fn spec_publish(s: Seq<char>, p: int, b: int) -> Parsed {
    match spec_token(s, p, b, CharClass::Alnum) {
        None => Parsed::Help(HelpTopic::Publish),
        Some((x, y)) => match spec_gap(s, y, b) {
            None => Parsed::Help(HelpTopic::Publish),
            Some(c) => if spec_one_line(s, c, b) {
                Parsed::Send(
                    Request::PublishBroadcast { topic: spec_span(x, y), data: spec_span(c, b) },
                )
            } else {
                Parsed::Help(HelpTopic::Publish)
            },
        },
    }
}

/// Reads what stands behind `net publish`.
pub fn publish(s: &Vec<char>, p: usize, b: usize) -> (r: Parsed)
    requires
        p <= b <= s@.len(),
    ensures
        r == spec_publish(s@, p as int, b as int),
{
    match token(s, p, b, CharClass::Alnum) {
        None => Parsed::Help(HelpTopic::Publish),
        Some((x, y)) => match gap(s, y, b) {
            None => Parsed::Help(HelpTopic::Publish),
            Some(c) => if one_line(s, c, b) {
                Parsed::Send(
                    Request::PublishBroadcast {
                        topic: Span { start: x, end: y },
                        data: Span { start: c, end: b },
                    },
                )
            } else {
                Parsed::Help(HelpTopic::Publish)
            },
        },
    }
}

/// A word of a kind behind white space, from place `p` on: where the word
/// begins and ends. Nothing without white space or without a word.
pub open spec fn spec_word(s: Seq<char>, p: int, b: int, class: CharClass) -> Option<(int, int)> {
    match spec_gap(s, p, b) {
        None => None,
        Some(c) => {
            let e = spec_span_end(s, c, b, class);
            if e > c {
                Some((c, e))
            } else {
                None
            }
        },
    }
}

/// Reads white space and then a word of a kind.
pub fn word(s: &Vec<char>, p: usize, b: usize, class: CharClass) -> (r: Option<(usize, usize)>)
    requires
        p <= b <= s@.len(),
    ensures
        r is Some == spec_word(s@, p as int, b as int, class) is Some,
        r matches Some(t) ==> spec_word(s@, p as int, b as int, class) == Some(
            (t.0 as int, t.1 as int),
        ) && p < t.0 < t.1 <= b,
{
    match gap(s, p, b) {
        None => None,
        Some(c) => {
            let e = span_end(s, c, b, class);
            if e > c {
                Some((c, e))
            } else {
                None
            }
        },
    }
}

/// What `net send` asks for: `NETWORK_ADDRESS TOPIC MESSAGE`.
pub open spec fn spec_send(s: Seq<char>, p: int, b: int) -> Parsed {
    match spec_token(s, p, b, CharClass::Hex) {
        None => Parsed::Help(HelpTopic::Send),
        Some((x, y)) => match spec_word(s, y, b, CharClass::Alnum) {
            None => Parsed::Help(HelpTopic::Send),
            Some((t0, t1)) => match spec_gap(s, t1, b) {
                None => Parsed::Help(HelpTopic::Send),
                Some(c) => if c < b && spec_one_line(s, c, b) {
                    Parsed::Send(
                        Request::SendUnicast {
                            to: spec_span(x, y),
                            topic: spec_span(t0, t1),
                            data: spec_span(c, b),
                        },
                    )
                } else {
                    Parsed::Help(HelpTopic::Send)
                },
            },
        },
    }
}

/// Reads what stands behind `net send`.
pub fn send(s: &Vec<char>, p: usize, b: usize) -> (r: Parsed)
    requires
        p <= b <= s@.len(),
    ensures
        r == spec_send(s@, p as int, b as int),
{
    match token(s, p, b, CharClass::Hex) {
        None => Parsed::Help(HelpTopic::Send),
        Some((x, y)) => match word(s, y, b, CharClass::Alnum) {
            None => Parsed::Help(HelpTopic::Send),
            Some((t0, t1)) => match gap(s, t1, b) {
                None => Parsed::Help(HelpTopic::Send),
                Some(c) => if c < b && one_line(s, c, b) {
                    Parsed::Send(
                        Request::SendUnicast {
                            to: Span { start: x, end: y },
                            topic: Span { start: t0, end: t1 },
                            data: Span { start: c, end: b },
                        },
                    )
                } else {
                    Parsed::Help(HelpTopic::Send)
                },
            },
        },
    }
}

/// What `validate certificate` asks for: `UTXO SENDER_ADDRESS
/// RECIPIENT_ADDRESS RVALUE`.
pub open spec fn spec_validate(s: Seq<char>, p: int, b: int) -> Parsed {
    match spec_token(s, p, b, CharClass::Hex) {
        None => Parsed::Help(HelpTopic::ValidateCertificate),
        Some((x, y)) => match spec_word(s, y, b, CharClass::Alnum) {
            None => Parsed::Help(HelpTopic::ValidateCertificate),
            Some((s0, s1)) => match spec_word(s, s1, b, CharClass::Alnum) {
                None => Parsed::Help(HelpTopic::ValidateCertificate),
                Some((r0, r1)) => match spec_word(s, r1, b, CharClass::Hex) {
                    None => Parsed::Help(HelpTopic::ValidateCertificate),
                    Some((v0, v1)) => if v1 == b {
                        Parsed::Send(
                            Request::ValidateCertificate {
                                utxo: spec_span(x, y),
                                spender: spec_span(s0, s1),
                                recipient: spec_span(r0, r1),
                                rvalue: spec_span(v0, v1),
                            },
                        )
                    } else {
                        Parsed::Help(HelpTopic::ValidateCertificate)
                    },
                },
            },
        },
    }
}

/// Reads what stands behind `validate certificate`.
pub fn validate(s: &Vec<char>, p: usize, b: usize) -> (r: Parsed)
    requires
        p <= b <= s@.len(),
    ensures
        r == spec_validate(s@, p as int, b as int),
{
    match token(s, p, b, CharClass::Hex) {
        None => Parsed::Help(HelpTopic::ValidateCertificate),
        Some((x, y)) => match word(s, y, b, CharClass::Alnum) {
            None => Parsed::Help(HelpTopic::ValidateCertificate),
            Some((s0, s1)) => match word(s, s1, b, CharClass::Alnum) {
                None => Parsed::Help(HelpTopic::ValidateCertificate),
                Some((r0, r1)) => match word(s, r1, b, CharClass::Hex) {
                    None => Parsed::Help(HelpTopic::ValidateCertificate),
                    Some((v0, v1)) => if v1 == b {
                        Parsed::Send(
                            Request::ValidateCertificate {
                                utxo: Span { start: x, end: y },
                                spender: Span { start: s0, end: s1 },
                                recipient: Span { start: r0, end: r1 },
                                rvalue: Span { start: v0, end: v1 },
                            },
                        )
                    } else {
                        Parsed::Help(HelpTopic::ValidateCertificate)
                    },
                },
            },
        },
    }
}

/// What `use` asks for: `ACCOUNT_ID`.
pub open spec fn spec_use(s: Seq<char>, p: int, b: int) -> Parsed {
    match spec_token(s, p, b, CharClass::Alnum) {
        Some((x, y)) => if y == b {
            Parsed::Use { account_id: spec_span(x, y) }
        } else {
            Parsed::Help(HelpTopic::Use)
        },
        None => Parsed::Help(HelpTopic::Use),
    }
}

/// Reads what stands behind `use`.
pub fn use_account(s: &Vec<char>, p: usize, b: usize) -> (r: Parsed)
    requires
        p <= b <= s@.len(),
    ensures
        r == spec_use(s@, p as int, b as int),
{
    match token(s, p, b, CharClass::Alnum) {
        Some((x, y)) => if y == b {
            Parsed::Use { account_id: Span { start: x, end: y } }
        } else {
            Parsed::Help(HelpTopic::Use)
        },
        None => Parsed::Help(HelpTopic::Use),
    }
}

/// What one of the three commands that take an amount asks for.
pub open spec fn spec_staking(s: Seq<char>, p: int, b: int, kind: int) -> Parsed {
    let missing = if kind == 0 {
        HelpTopic::StakeRemote
    } else if kind == 1 {
        HelpTopic::Stake
    } else {
        HelpTopic::Unstake
    };
    let wrong = if kind == 2 {
        HelpTopic::Unstake
    } else {
        HelpTopic::Pay
    };
    match spec_amount(s, p, b) {
        None => Parsed::Help(missing),
        Some(Err(error)) => Parsed::Complain { what: Complaint::Money { error }, topic: wrong },
        Some(Ok(amount)) => Parsed::Send(
            if kind == 0 {
                Request::StakeRemote { amount, payment_fee: PAYMENT_FEE }
            } else if kind == 1 {
                Request::Stake { amount, payment_fee: PAYMENT_FEE }
            } else {
                Request::Unstake { amount, payment_fee: PAYMENT_FEE }
            },
        ),
    }
}

/// Reads `stake remote AMOUNT` (kind 0), `stake AMOUNT` (kind 1) or
/// `unstake AMOUNT` (kind 2).
pub fn staking(s: &Vec<char>, p: usize, b: usize, kind: u8) -> (r: Parsed)
    requires
        p <= b <= s@.len(),
    ensures
        r == spec_staking(s@, p as int, b as int, kind as int),
{
    let missing = if kind == 0 {
        HelpTopic::StakeRemote
    } else if kind == 1 {
        HelpTopic::Stake
    } else {
        HelpTopic::Unstake
    };
    let wrong = if kind == 2 {
        HelpTopic::Unstake
    } else {
        HelpTopic::Pay
    };
    match amount(s, p, b) {
        None => Parsed::Help(missing),
        Some(Err(error)) => Parsed::Complain { what: Complaint::Money { error }, topic: wrong },
        Some(Ok(amount)) => Parsed::Send(
            if kind == 0 {
                Request::StakeRemote { amount, payment_fee: PAYMENT_FEE }
            } else if kind == 1 {
                Request::Stake { amount, payment_fee: PAYMENT_FEE }
            } else {
                Request::Unstake { amount, payment_fee: PAYMENT_FEE }
            },
        ),
    }
}

/// What a command asks for, where the command stands from place `a` up to
/// place `b` of the line. The commands are tried in their order, whole
/// words before beginnings; what fits none of them gets the general help.
pub open spec fn spec_command(s: Seq<char>, a: int, b: int) -> Parsed {
    if spec_is(s, a, b, "lock"@) {
        Parsed::Send(Request::Seal)
    } else if spec_is(s, a, b, "seal"@) {
        Parsed::Send(Request::Seal)
    } else if spec_is(s, a, b, "unlock"@) {
        Parsed::Ask(Prompt::Unseal)
    } else if spec_is(s, a, b, "unseal"@) {
        Parsed::Ask(Prompt::Unseal)
    } else if spec_at(s, a, b, "net publish "@) {
        spec_publish(s, a + "net publish "@.len(), b)
    } else if spec_at(s, a, b, "net send "@) {
        spec_send(s, a + "net send "@.len(), b)
    } else if spec_at(s, a, b, "net peers"@) {
        Parsed::Send(Request::ConnectedNodes)
    } else if spec_at(s, a, b, "pay "@) {
        spec_pay(s, a + "pay "@.len(), b)
    } else if spec_at(s, a, b, "validate certificate "@) {
        spec_validate(s, a + "validate certificate "@.len(), b)
    } else if spec_at(s, a, b, "msg "@) {
        spec_msg(s, a + "msg "@.len(), b)
    } else if spec_at(s, a, b, "stake all"@) {
        Parsed::Send(Request::StakeAll { payment_fee: PAYMENT_FEE })
    } else if spec_at(s, a, b, "stake remote "@) {
        spec_staking(s, a + "stake remote "@.len(), b, 0)
    } else if spec_at(s, a, b, "stake "@) {
        spec_staking(s, a + "stake "@.len(), b, 1)
    } else if spec_is(s, a, b, "unstake"@) {
        Parsed::Send(Request::UnstakeAll { payment_fee: PAYMENT_FEE })
    } else if spec_at(s, a, b, "unstake "@) {
        spec_staking(s, a + "unstake "@.len(), b, 2)
    } else if spec_is(s, a, b, "restake"@) {
        Parsed::Send(Request::RestakeAll)
    } else if spec_is(s, a, b, "cloak"@) {
        Parsed::Send(Request::CloakAll { payment_fee: PAYMENT_FEE })
    } else if spec_is(s, a, b, "show version"@) {
        Parsed::Send(Request::VersionInfo)
    } else if spec_is(s, a, b, "show validators"@) {
        Parsed::Send(Request::ValidatorsInfo)
    } else if spec_is(s, a, b, "show keys"@) {
        Parsed::Send(Request::AccountInfo)
    } else if spec_is(s, a, b, "show balance"@) {
        Parsed::Send(Request::BalanceInfo)
    } else if spec_is(s, a, b, "show election"@) {
        Parsed::Send(Request::ElectionInfo)
    } else if spec_is(s, a, b, "show escrow"@) {
        Parsed::Send(Request::EscrowInfo)
    } else if spec_is(s, a, b, "show replication"@) {
        Parsed::Send(Request::ReplicationInfo)
    } else if spec_is(s, a, b, "change upstream"@) {
        Parsed::Send(Request::ChangeUpstream)
    } else if spec_is(s, a, b, "show utxo"@) {
        Parsed::Send(Request::UnspentInfo)
    } else if spec_at(s, a, b, "show history"@) {
        Parsed::History { since: spec_span(a + "show history"@.len(), b) }
    } else if spec_is(s, a, b, "show recovery"@) {
        Parsed::Send(Request::GetRecovery)
    } else if spec_at(s, a, b, "show block"@) {
        spec_show_block(s, a + "show block"@.len(), b)
    } else if spec_at(s, a, b, "subscribe chain"@) {
        spec_subscribe_chain(s, a + "subscribe chain"@.len(), b)
    } else if spec_at(s, a, b, "show status"@) {
        Parsed::Send(Request::StatusInfo)
    } else if spec_at(s, a, b, "subscribe status"@) {
        Parsed::Send(Request::SubscribeStatus)
    } else if spec_is(s, a, b, "show accounts"@) {
        Parsed::Send(Request::AccountsInfo)
    } else if spec_is(s, a, b, "create account"@) {
        Parsed::Ask(Prompt::CreateAccount)
    } else if spec_is(s, a, b, "recover account"@) {
        Parsed::Ask(Prompt::RecoverAccount)
    } else if spec_is(s, a, b, "passwd"@) {
        Parsed::Ask(Prompt::ChangePassword)
    } else if spec_at(s, a, b, "use "@) {
        spec_use(s, a + "use "@.len(), b)
    } else if spec_at(s, a, b, "delete account"@) {
        Parsed::Ask(Prompt::DeleteAccount)
    } else if spec_is(s, a, b, "pop block"@) {
        Parsed::Send(Request::PopMicroBlock)
    } else if spec_is(s, a, b, "enable restaking"@) {
        Parsed::Send(Request::EnableRestaking)
    } else if spec_is(s, a, b, "disable restaking"@) {
        Parsed::Send(Request::DisableRestaking)
    } else {
        Parsed::Help(HelpTopic::General)
    }
}

/// Reads a command that stands from place `a` up to place `b` of the line.
pub fn command(s: &Vec<char>, a: usize, b: usize) -> (r: Parsed)
    requires
        a <= b <= s@.len(),
    ensures
        r == spec_command(s@, a as int, b as int),
{
    if is(s, a, b, "lock") {
        return Parsed::Send(Request::Seal);
    }
    if is(s, a, b, "seal") {
        return Parsed::Send(Request::Seal);
    }
    if is(s, a, b, "unlock") {
        return Parsed::Ask(Prompt::Unseal);
    }
    if is(s, a, b, "unseal") {
        return Parsed::Ask(Prompt::Unseal);
    }
    if at(s, a, b, "net publish ") {
        let n = "net publish ".unicode_len();
        return publish(s, a + n, b);
    }
    if at(s, a, b, "net send ") {
        let n = "net send ".unicode_len();
        return send(s, a + n, b);
    }
    if at(s, a, b, "net peers") {
        return Parsed::Send(Request::ConnectedNodes);
    }
    if at(s, a, b, "pay ") {
        let n = "pay ".unicode_len();
        return pay(s, a + n, b);
    }
    if at(s, a, b, "validate certificate ") {
        let n = "validate certificate ".unicode_len();
        return validate(s, a + n, b);
    }
    if at(s, a, b, "msg ") {
        let n = "msg ".unicode_len();
        return msg(s, a + n, b);
    }
    if at(s, a, b, "stake all") {
        return Parsed::Send(Request::StakeAll { payment_fee: PAYMENT_FEE });
    }
    if at(s, a, b, "stake remote ") {
        let n = "stake remote ".unicode_len();
        return staking(s, a + n, b, 0);
    }
    if at(s, a, b, "stake ") {
        let n = "stake ".unicode_len();
        return staking(s, a + n, b, 1);
    }
    if is(s, a, b, "unstake") {
        return Parsed::Send(Request::UnstakeAll { payment_fee: PAYMENT_FEE });
    }
    if at(s, a, b, "unstake ") {
        let n = "unstake ".unicode_len();
        return staking(s, a + n, b, 2);
    }
    if is(s, a, b, "restake") {
        return Parsed::Send(Request::RestakeAll);
    }
    if is(s, a, b, "cloak") {
        return Parsed::Send(Request::CloakAll { payment_fee: PAYMENT_FEE });
    }
    if is(s, a, b, "show version") {
        return Parsed::Send(Request::VersionInfo);
    }
    if is(s, a, b, "show validators") {
        return Parsed::Send(Request::ValidatorsInfo);
    }
    if is(s, a, b, "show keys") {
        return Parsed::Send(Request::AccountInfo);
    }
    if is(s, a, b, "show balance") {
        return Parsed::Send(Request::BalanceInfo);
    }
    if is(s, a, b, "show election") {
        return Parsed::Send(Request::ElectionInfo);
    }
    if is(s, a, b, "show escrow") {
        return Parsed::Send(Request::EscrowInfo);
    }
    if is(s, a, b, "show replication") {
        return Parsed::Send(Request::ReplicationInfo);
    }
    if is(s, a, b, "change upstream") {
        return Parsed::Send(Request::ChangeUpstream);
    }
    if is(s, a, b, "show utxo") {
        return Parsed::Send(Request::UnspentInfo);
    }
    if at(s, a, b, "show history") {
        let n = "show history".unicode_len();
        return Parsed::History { since: Span { start: a + n, end: b } };
    }
    if is(s, a, b, "show recovery") {
        return Parsed::Send(Request::GetRecovery);
    }
    if at(s, a, b, "show block") {
        let n = "show block".unicode_len();
        return show_block(s, a + n, b);
    }
    if at(s, a, b, "subscribe chain") {
        let n = "subscribe chain".unicode_len();
        return subscribe_chain(s, a + n, b);
    }
    if at(s, a, b, "show status") {
        return Parsed::Send(Request::StatusInfo);
    }
    if at(s, a, b, "subscribe status") {
        return Parsed::Send(Request::SubscribeStatus);
    }
    if is(s, a, b, "show accounts") {
        return Parsed::Send(Request::AccountsInfo);
    }
    if is(s, a, b, "create account") {
        return Parsed::Ask(Prompt::CreateAccount);
    }
    if is(s, a, b, "recover account") {
        return Parsed::Ask(Prompt::RecoverAccount);
    }
    if is(s, a, b, "passwd") {
        return Parsed::Ask(Prompt::ChangePassword);
    }
    if at(s, a, b, "use ") {
        let n = "use ".unicode_len();
        return use_account(s, a + n, b);
    }
    if at(s, a, b, "delete account") {
        return Parsed::Ask(Prompt::DeleteAccount);
    }
    if is(s, a, b, "pop block") {
        return Parsed::Send(Request::PopMicroBlock);
    }
    if is(s, a, b, "enable restaking") {
        return Parsed::Send(Request::EnableRestaking);
    }
    if is(s, a, b, "disable restaking") {
        return Parsed::Send(Request::DisableRestaking);
    }
    Parsed::Help(HelpTopic::General)
}

/// Where the command of a line begins: behind the white space at its front.
pub open spec fn spec_command_start(s: Seq<char>) -> int {
    spec_span_end(s, 0, s.len() as int, CharClass::Space)
}

/// Where the command of a line ends: before the white space at its back.
pub open spec fn spec_command_end(s: Seq<char>) -> int {
    if spec_trim_end(s, s.len() as int) < spec_command_start(s) {
        spec_command_start(s)
    } else {
        spec_trim_end(s, s.len() as int)
    }
}

/// What a line typed at the prompt asks for.
pub open spec fn spec_on_input(s: Seq<char>) -> Parsed {
    spec_command(s, spec_command_start(s), spec_command_end(s))
}

/// Called when a line is typed on standard input: says what the line asks
/// for. White space around the command does not count. The spans of the
/// answer are places in the line as it was typed.
pub fn on_input(msg: &str) -> (r: Parsed)
    ensures
        r == spec_on_input(msg@),
{
    let s = chars_of(msg);
    let a = span_end(&s, 0, s.len(), CharClass::Space);
    let e = trim_end(&s);
    let b = if e < a {
        a
    } else {
        e
    };
    command(&s, a, b)
}

/// The text of a span of a line.
pub fn text<'a>(line: &'a str, span: Span) -> (r: &'a str)
    requires
        span.start <= span.end <= line@.len(),
    ensures
        r@ == line@.subrange(span.start as int, span.end as int),
{
    line.substring_char(span.start, span.end)
}

/// How the console prints what it sends and receives.
#[derive(Clone, Copy, Debug, PartialEq, Eq, Structural)]
pub enum Formatter {
    YAML,
    JSON,
}

impl Formatter {
    /// The formatter of a name: `yaml` or `json`.
    pub fn parse(formatter: &str) -> (r: Option<Formatter>)
        ensures
            r == if formatter@ == "yaml"@ {
                Some(Formatter::YAML)
            } else if formatter@ == "json"@ {
                Some(Formatter::JSON)
            } else {
                None
            },
    {
        let s = chars_of(formatter);
        if is(&s, 0, s.len(), "yaml") {
            assert(formatter@.subrange(0, formatter@.len() as int) =~= formatter@);
            Some(Formatter::YAML)
        } else if is(&s, 0, s.len(), "json") {
            assert(formatter@.subrange(0, formatter@.len() as int) =~= formatter@);
            Some(Formatter::JSON)
        } else {
            assert(formatter@.subrange(0, formatter@.len() as int) =~= formatter@);
            None
        }
    }
}

impl Formatter {
    /// The formatter that a name stands for: `yaml` or `json`; any other
    /// name is refused.
    pub open spec fn spec_from_str(formatter: Seq<char>) -> Result<Formatter, ()> {
        if formatter == "yaml"@ {
            Ok(Formatter::YAML)
        } else if formatter == "json"@ {
            Ok(Formatter::JSON)
        } else {
            Err(())
        }
    }
}

impl core::str::FromStr for Formatter {
    type Err = ();

    fn from_str(formatter: &str) -> (r: Result<Formatter, ()>)
        ensures
            r == Formatter::spec_from_str(formatter@),
    {
        match Formatter::parse(formatter) {
            Some(f) => Ok(f),
            None => Err(()),
        }
    }
}

/// How far the console has come in learning the name of the chain.
#[derive(Debug)]
pub enum ChainNameResolver {
    NotSet,
    Resolving,
    Known(String),
}

/// What the console does next to learn the name of the chain.
#[derive(Clone, Copy, Debug, PartialEq, Eq, Structural)]
pub enum ResolverStep {
    /// Wait for the connection to the node.
    AwaitConnection,
    /// Ask the node for the name of the chain.
    SendRequest,
    /// Wait for the answer of the node.
    AwaitResponse,
    /// The name is known.
    Ready,
}

impl ChainNameResolver {
    /// The state in which the console starts: with the name where the
    /// operator gave one.
    pub fn new(chain: Option<String>) -> (r: ChainNameResolver)
        ensures
            match chain {
                None => r is NotSet,
                Some(v) => r == ChainNameResolver::Known(v),
            },
    {
        match chain {
            None => ChainNameResolver::NotSet,
            Some(v) => ChainNameResolver::Known(v),
        }
    }

    /// What the console does next: without a name it asks the node, once
    /// it is connected, and then waits for the answer.
    pub fn try_chain_name_resolve(&mut self, connected: bool) -> (r: ResolverStep)
        ensures
            match *old(self) {
                ChainNameResolver::NotSet => if connected {
                    r == ResolverStep::SendRequest && *final(self) is Resolving
                } else {
                    r == ResolverStep::AwaitConnection && *final(self) is NotSet
                },
                ChainNameResolver::Resolving => r == ResolverStep::AwaitResponse && *final(self) is Resolving,
                ChainNameResolver::Known(name) => r == ResolverStep::Ready && *final(self) == *old(self),
            },
    {
        match self {
            ChainNameResolver::NotSet => {
                if connected {
                    *self = ChainNameResolver::Resolving;
                    ResolverStep::SendRequest
                } else {
                    ResolverStep::AwaitConnection
                }
            },
            ChainNameResolver::Resolving => ResolverStep::AwaitResponse,
            ChainNameResolver::Known(_) => ResolverStep::Ready,
        }
    }

    /// Takes the answer of the node: the name of the chain.
    pub fn on_chain_name(&mut self, name: String)
        requires
            *old(self) is Resolving,
        ensures
            *final(self) == ChainNameResolver::Known(name),
    {
        *self = ChainNameResolver::Known(name);
    }
}

impl From<Option<String>> for ChainNameResolver {
    fn from(chain: Option<String>) -> (r: ChainNameResolver) {
        ChainNameResolver::new(chain)
    }
}

impl vstd::std_specs::convert::FromSpecImpl<Option<String>> for ChainNameResolver {
    open spec fn obeys_from_spec() -> bool {
        true
    }

    open spec fn from_spec(chain: Option<String>) -> ChainNameResolver {
        match chain {
            None => ChainNameResolver::NotSet,
            Some(v) => ChainNameResolver::Known(v),
        }
    }
}

} // verus!
