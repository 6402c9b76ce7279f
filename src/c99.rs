//! Parsers for C99 lexical elements, usable for languages with similar
//! lexical elements.
use vstd::prelude::*;
use crate::chars::{is_alpha, is_digit, spec_is_alpha, spec_is_digit, EOT};
use crate::combinators::{Before, Label, Mapped, Optional, Or, Recognize, Then};
use crate::numbers::{digits_value, from_base_10, from_base_16, from_base_8};
use crate::parser::{advances, CharClass, Combinators, Parser, Transform};
use crate::primitives::{anyc, lit, match0, match1, match1_0, noc, scan, Lit, Match, Match1_0, OneOf, Scan, Scanner};
use crate::repetition::Repeat;
use crate::sequences::{seq2_ret1, seq2_ret_str, seq3_ret1, seq3_ret2, seq3_ret_str, seq4_ret_str, Check, Checked};
use crate::text::{string_from, string_of_chars};

verus! {

/// Returns true if ch is in [a-zA-Z_].
pub fn is_identifier_prefix(ch: char) -> (r: bool)
    ensures
        r == (spec_is_alpha(ch) || ch == '_'),
{
    is_alpha(ch) || ch == '_'
}

/// Returns true if ch is in [a-zA-Z0-9_].
pub fn is_identifier_suffix(ch: char) -> (r: bool)
    ensures
        r == (spec_is_alpha(ch) || ch == '_' || spec_is_digit(ch)),
{
    is_identifier_prefix(ch) || is_digit(ch)
}

/// Returns true if ch is in [0-7].
pub fn is_octal(ch: char) -> (r: bool)
    ensures
        r == ('0' <= ch && ch <= '7'),
{
    '0' <= ch && ch <= '7'
}

/// Returns true if ch is in [0-9a-fA-F].
pub fn is_hex(ch: char) -> (r: bool)
    ensures
        r == (('0' <= ch && ch <= '9') || ('a' <= ch && ch <= 'f') || ('A' <= ch && ch <= 'F')),
{
    ('0' <= ch && ch <= '9') || ('a' <= ch && ch <= 'f') || ('A' <= ch && ch <= 'F')
}

/// [a-zA-Z_]
pub struct IdentPrefix;

impl CharClass for IdentPrefix {
    open spec fn wf(&self) -> bool {
        true
    }

    open spec fn holds(&self, ch: char) -> bool {
        spec_is_alpha(ch) || ch == '_'
    }

    fn test(&self, ch: char) -> (r: bool) {
        is_identifier_prefix(ch)
    }
}

/// [a-zA-Z0-9_]
pub struct IdentSuffix;

impl CharClass for IdentSuffix {
    open spec fn wf(&self) -> bool {
        true
    }

    open spec fn holds(&self, ch: char) -> bool {
        spec_is_alpha(ch) || ch == '_' || spec_is_digit(ch)
    }

    fn test(&self, ch: char) -> (r: bool) {
        is_identifier_suffix(ch)
    }
}

/// [0-9]
pub struct Digit;

impl CharClass for Digit {
    open spec fn wf(&self) -> bool {
        true
    }

    open spec fn holds(&self, ch: char) -> bool {
        spec_is_digit(ch)
    }

    fn test(&self, ch: char) -> (r: bool) {
        is_digit(ch)
    }
}

/// [0-7]
pub struct OctalDigit;

impl CharClass for OctalDigit {
    open spec fn wf(&self) -> bool {
        true
    }

    open spec fn holds(&self, ch: char) -> bool {
        '0' <= ch && ch <= '7'
    }

    fn test(&self, ch: char) -> (r: bool) {
        is_octal(ch)
    }
}

/// [0-9a-fA-F]
pub struct HexDigit;

impl CharClass for HexDigit {
    open spec fn wf(&self) -> bool {
        true
    }

    open spec fn holds(&self, ch: char) -> bool {
        ('0' <= ch && ch <= '9') || ('a' <= ch && ch <= 'f') || ('A' <= ch && ch <= 'F')
    }

    fn test(&self, ch: char) -> (r: bool) {
        is_hex(ch)
    }
}

/// The character `0`.
pub struct Zero;

impl CharClass for Zero {
    open spec fn wf(&self) -> bool {
        true
    }

    open spec fn holds(&self, ch: char) -> bool {
        ch == '0'
    }

    fn test(&self, ch: char) -> (r: bool) {
        ch == '0'
    }
}

/// identifier := [a-zA-Z_] [a-zA-Z0-9_]*
pub fn identifier() -> (r: Label<Match1_0<IdentPrefix, IdentSuffix>>)
    ensures
        r.wf(),
        r.inner == (Match1_0 { prefix: IdentPrefix, suffix: IdentSuffix }),
        r.label@ == "Expected identifier"@,
{
    match1_0(IdentPrefix, IdentSuffix).err("Expected identifier")
}

/// The character that an escape letter stands for; any other character
/// stands for itself.
pub open spec fn spec_escape_to_char(ch: char) -> char {
    if ch == 'a' {
        '\x07'
    } else if ch == 'b' {
        '\x7F'
    } else if ch == 'f' {
        '\x0C'
    } else if ch == 'n' {
        '\n'
    } else if ch == 'r' {
        '\r'
    } else if ch == 't' {
        '\t'
    } else if ch == 'v' {
        '\x0B'
    } else {
        ch
    }
}

/// The character that an escape letter stands for.
pub fn escape_to_char(ch: char) -> (r: char)
    ensures
        r == spec_escape_to_char(ch),
{
    match ch {
        'a' => '\x07',
        'b' => '\x7F',
        'f' => '\x0C',
        'n' => '\n',
        'r' => '\r',
        't' => '\t',
        'v' => '\x0B',
        _ => ch,
    }
}

/// Maps an escape letter to its character.
pub struct EscapeChar;

impl Transform<char> for EscapeChar {
    type Out = char;

    open spec fn wf(&self) -> bool {
        true
    }

    open spec fn spec_apply(&self, a: char) -> char {
        spec_escape_to_char(a)
    }

    fn apply(&self, a: char) -> (r: char) {
        escape_to_char(a)
    }
}

/// Collects characters into a string.
pub struct CharsToString;

impl Transform<Vec<char>> for CharsToString {
    type Out = String;

    open spec fn wf(&self) -> bool {
        true
    }

    open spec fn spec_apply(&self, a: Seq<char>) -> Seq<char> {
        a
    }

    fn apply(&self, a: Vec<char>) -> (r: String) {
        let r = string_of_chars(&a);
        proof {
            assert(a.deep_view() =~= a@);
        }
        r
    }
}

/// The code of a character.
pub open spec fn code_of(c: char) -> int {
    c as int
}

/// Whether `v` is the code of a character (a Unicode scalar value).
pub open spec fn is_scalar(v: int) -> bool {
    (0 <= v < 0xD800) || (0xE000 <= v <= 0x10FFFF)
}

/// Relies on char::from_u32: Some exactly for Unicode scalar values, holding
/// the character with that code.
#[verifier::external_body]
fn char_from_u32(n: u32) -> (r: Option<char>)
    ensures
        r is Some <==> is_scalar(n as int),
        r matches Some(c) ==> code_of(c) == n as int,
{
    char::from_u32(n)
}

/// The message of a digit string too large for its base.
pub open spec fn too_large_mesg(t: Seq<char>, base: int) -> Seq<char> {
    if base == 8 {
        "Octal number is too large"@
    } else if base == 16 {
        "Hex number is too large"@
    } else {
        seq!['\''] + t + "' is out of range"@
    }
}

/// The value of a digit string in base 8, 10 or 16.
pub open spec fn number_result(t: Seq<char>, base: int) -> Result<i64, Seq<char>> {
    if digits_value(t, base) > i64::MAX {
        Err(too_large_mesg(t, base))
    } else {
        Ok(digits_value(t, base) as i64)
    }
}

fn number_of(t: &String, base: i64) -> (r: Result<i64, String>)
    requires
        base == 8 || base == 10 || base == 16,
    ensures
        match r {
            Ok(v) => number_result(t@, base as int) == Ok::<i64, Seq<char>>(v),
            Err(m) => number_result(t@, base as int) == Err::<i64, Seq<char>>(m@),
        },
{
    if base == 8 {
        from_base_8(t)
    } else if base == 16 {
        from_base_16(t)
    } else {
        from_base_10(t)
    }
}

/// Reads a digit string as a number.
pub struct Number {
    pub base: i64,
}

impl Check<String> for Number {
    type Out = i64;

    open spec fn wf(&self) -> bool {
        self.base == 8 || self.base == 10 || self.base == 16
    }

    open spec fn spec_check(&self, a: Seq<char>) -> Result<i64, Seq<char>> {
        number_result(a, self.base as int)
    }

    fn check(&self, a: String) -> (r: Result<i64, String>) {
        number_of(&a, self.base)
    }
}

/// The message `Character code is out of range`.
pub open spec fn code_range_mesg() -> Seq<char> {
    "Character code is out of range"@
}

/// The character whose code a digit string gives.
pub open spec fn code_result(t: Seq<char>, base: int) -> Result<char, Seq<char>> {
    match number_result(t, base) {
        Ok(v) => if is_scalar(v as int) {
            Ok(choose|c: char| #[trigger] code_of(c) == v as int)
        } else {
            Err(code_range_mesg())
        },
        Err(m) => Err(m),
    }
}

/// Reads a digit string as a character code.
pub struct CharCode {
    pub base: i64,
}

impl Check<String> for CharCode {
    type Out = char;

    open spec fn wf(&self) -> bool {
        self.base == 8 || self.base == 16
    }

    open spec fn spec_check(&self, a: Seq<char>) -> Result<char, Seq<char>> {
        code_result(a, self.base as int)
    }

    fn check(&self, a: String) -> (r: Result<char, String>) {
        match number_of(&a, self.base) {
            Ok(v) => {
                if 0 <= v && v <= 0x10FFFF {
                    match char_from_u32(v as u32) {
                        Some(c) => Ok(c),
                        None => Err(string_from("Character code is out of range")),
                    }
                } else {
                    Err(string_from("Character code is out of range"))
                }
            },
            Err(m) => Err(m),
        }
    }
}

/// escape-sequence := '\\' ['"?abfnrtv\\]
///                  | '\\' octal-digit+
///                  | '\\x' hex-digit+
///                  | universal-character-name
pub type EscapeSequence = Label<
    Or<
        Or<
            Or<
                Then<Lit, Mapped<OneOf, EscapeChar>>,
                Then<Lit, Checked<Match<OctalDigit>, CharCode>>,
            >,
            Then<Lit, Checked<Match<HexDigit>, CharCode>>,
        >,
        UniversalCharacterName,
    >,
>;

/// universal-character-name := '\\' [uU] hex-digit+
pub type UniversalCharacterName = Then<Then<Lit, OneOf>, Checked<Match<HexDigit>, CharCode>>;

/// universal-character-name := '\\' [uU] hex-digit+
pub fn universal_character_name() -> (r: UniversalCharacterName)
    ensures
        r.wf(),
        advances(r),
        r.first.first.pattern@ == "\\"@,
        !r.first.first.fold,
        r.first.second.set@ == "uU"@,
        !r.first.second.negate,
        r.second.inner == (Match { class: HexDigit, at_least_one: true }),
        r.second.f.base == 16,
{
    let p = seq3_ret2(lit("\\"), anyc("uU"), Checked { inner: match1(HexDigit), f: CharCode { base: 16 } });
    proof {
        reveal_strlit("\\");
        crate::progress::lemma_lit_advances(p.first.first);
        crate::repetition::lemma_then_advances(p.first.first, p.first.second);
        crate::repetition::lemma_then_advances(p.first, p.second);
    }
    p
}

/// An escape sequence, giving the character it stands for.
pub fn escape_sequence() -> (r: EscapeSequence)
    ensures
        r.wf(),
        advances(r),
        r.label@ == ""@,
        r.inner.first.first.first.first.pattern@ == "\\"@,
        r.inner.first.first.first.second.inner.set@ == "'\"?abfnrtv\\"@,
        !r.inner.first.first.first.second.inner.negate,
        r.inner.first.first.second.first.pattern@ == "\\"@,
        r.inner.first.first.second.second.inner == (Match { class: OctalDigit, at_least_one: true }),
        r.inner.first.first.second.second.f.base == 8,
        r.inner.first.second.first.pattern@ == "\\x"@,
        r.inner.first.second.second.inner == (Match { class: HexDigit, at_least_one: true }),
        r.inner.first.second.second.f.base == 16,
        r.inner.second.first.first.pattern@ == "\\"@,
        r.inner.second.first.second.set@ == "uU"@,
        r.inner.second.second.inner == (Match { class: HexDigit, at_least_one: true }),
        r.inner.second.second.f.base == 16,
{
    let case1 = seq2_ret1(lit("\\"), anyc("'\"?abfnrtv\\").map(EscapeChar));
    let case2 = seq2_ret1(lit("\\"), Checked { inner: match1(OctalDigit), f: CharCode { base: 8 } });
    let case3 = seq2_ret1(lit("\\x"), Checked { inner: match1(HexDigit), f: CharCode { base: 16 } });
    let case4 = universal_character_name();
    proof {
        reveal_strlit("\\");
        reveal_strlit("\\x");
        crate::progress::lemma_lit_advances(case1.first);
        crate::repetition::lemma_then_advances(case1.first, case1.second);
        crate::progress::lemma_lit_advances(case2.first);
        crate::repetition::lemma_then_advances(case2.first, case2.second);
        crate::progress::lemma_lit_advances(case3.first);
        crate::repetition::lemma_then_advances(case3.first, case3.second);
    }
    let alts = case1.or(case2).or(case3).or(case4);
    proof {
        crate::progress::lemma_or_advances(alts.first.first);
        crate::progress::lemma_or_advances(alts.first);
        crate::progress::lemma_or_advances(alts);
    }
    let r = alts.err("");
    proof {
        crate::progress::lemma_label_advances(r);
    }
    r
}

/// One character of a literal: any character but those in `excluded`, or an
/// escape sequence.
pub type LiteralChar = Or<Label<OneOf>, Label<EscapeSequence>>;

fn literal_char(excluded: &str) -> (r: LiteralChar)
    ensures
        r.wf(),
        advances(r),
        r.first.inner.set@ == excluded@,
        r.first.inner.negate,
        r.first.label@ == ""@,
        r.second.label@ == "Expected escape character"@,
{
    let plain = noc(excluded).err("");
    let escaped = escape_sequence().err("Expected escape character");
    proof {
        crate::progress::lemma_one_of_advances(plain.inner);
        crate::progress::lemma_label_advances(plain);
        crate::progress::lemma_label_advances(escaped);
    }
    let r = plain.or(escaped);
    proof {
        crate::progress::lemma_or_advances(r);
    }
    r
}

/// char_literal := '\\'' c_char '\\''
///
/// c_char := [^'\\n\\r\\\\] | escape_sequence
pub fn char_literal() -> (r: Before<Then<Lit, LiteralChar>, Label<Lit>>)
    ensures
        r.wf(),
        r.first.first.pattern@ == "'"@,
        !r.first.first.fold,
        r.first.second.first.inner.set@ == "'\n\r\\"@,
        r.first.second.first.inner.negate,
        r.second.inner.pattern@ == "'"@,
        !r.second.inner.fold,
        r.second.label@ == "Expected '''"@,
{
    seq3_ret1(lit("'"), literal_char("'\n\r\\"), lit("'").err("Expected '''"))
}

/// string_literal := '"' s_char* '"'
///
/// s_char := [^"\\n\\r\\\\] | escape_sequence
pub fn string_literal() -> (r: Before<Then<Lit, Mapped<Repeat<LiteralChar>, CharsToString>>, Label<Lit>>)
    ensures
        r.wf(),
        r.first.first.pattern@ == "\""@,
        !r.first.first.fold,
        r.first.second.inner.inner.first.inner.set@ == "\"\n\r\\"@,
        r.first.second.inner.min == 0,
        r.first.second.inner.max == usize::MAX,
        r.second.inner.pattern@ == "\""@,
        !r.second.inner.fold,
        r.second.label@ == "Expected '\"'"@,
{
    let body = literal_char("\"\n\r\\").r0().map(CharsToString);
    seq3_ret1(lit("\""), body, lit("\"").err("Expected '\"'"))
}

/// The length of a comment body starting at `i`: up to the first `*/`, or
/// up to the sentinel when there is none.
pub open spec fn comment_body_end(text: Seq<char>, i: int) -> int
    decreases text.len() - i,
{
    if i < 0 || i >= text.len() - 1 || text[i] == EOT || (text[i] == '*' && text[i + 1] == '/') {
        i
    } else {
        comment_body_end(text, i + 1)
    }
}

/// Scans the body of a `/* */` comment.
pub struct CommentBody;

impl Scanner for CommentBody {
    open spec fn wf(&self) -> bool {
        true
    }

    open spec fn spec_count(&self, text: Seq<char>, i: int) -> int {
        comment_body_end(text, i) - i
    }

    fn count(&self, text: &Vec<char>, i: usize) -> (r: usize) {
        let mut j = i;
        while j < text.len() - 1 && text[j] != EOT && !(text[j] == '*' && text[j + 1] == '/')
            invariant
                i <= j < text@.len(),
                comment_body_end(text@, j as int) == comment_body_end(text@, i as int),
            decreases text@.len() - j,
        {
            j += 1;
        }
        j - i
    }
}

/// comment := '/*' ([^*] | '*' [^/])* '*/'
///
/// Comments do not nest.
pub fn comment() -> (r: Before<Then<Lit, Scan<CommentBody>>, Label<Lit>>)
    ensures
        r.wf(),
        r.first.first.pattern@ == "/*"@,
        !r.first.first.fold,
        r.second.inner.pattern@ == "*/"@,
        !r.second.inner.fold,
        r.second.label@ == "Expected '*/'"@,
{
    seq3_ret1(lit("/*"), scan(CommentBody), lit("*/").err("Expected '*/'"))
}

/// The end of the rest of a line starting at `i`: the first `\r`, `\n` or
/// sentinel.
pub open spec fn line_end(text: Seq<char>, i: int) -> int
    decreases text.len() - i,
{
    if i < 0 || i >= text.len() || text[i] == EOT || text[i] == '\r' || text[i] == '\n' {
        i
    } else {
        line_end(text, i + 1)
    }
}

/// Scans to the end of the line.
pub struct LineRest;

impl Scanner for LineRest {
    open spec fn wf(&self) -> bool {
        true
    }

    open spec fn spec_count(&self, text: Seq<char>, i: int) -> int {
        line_end(text, i) - i
    }

    fn count(&self, text: &Vec<char>, i: usize) -> (r: usize) {
        let mut j = i;
        while j < text.len() && text[j] != EOT && text[j] != '\r' && text[j] != '\n'
            invariant
                i <= j <= text@.len(),
                line_end(text@, j as int) == line_end(text@, i as int),
            decreases text@.len() - j,
        {
            j += 1;
        }
        j - i
    }
}

/// line_comment := '//' [^\\r\\n]*
pub fn line_comment() -> (r: Then<Lit, Scan<LineRest>>)
    ensures
        r.wf(),
        r.first.pattern@ == "//"@,
        !r.first.fold,
{
    seq2_ret1(lit("//"), scan(LineRest))
}

/// decimal_number := [0-9]+
///
/// Leading zeros are accepted, so that the parser is more reusable.
pub fn decimal_number() -> (r: Checked<Label<Match<Digit>>, Number>)
    ensures
        r.wf(),
        r.f.base == 10,
        r.inner.label@ == "Expected decimal number"@,
        r.inner.inner == (Match { class: Digit, at_least_one: true }),
{
    Checked { inner: match1(Digit).err("Expected decimal number"), f: Number { base: 10 } }
}

/// octal_number := 0 [0-7]*
pub fn octal_number() -> (r: Checked<Label<Match1_0<Zero, OctalDigit>>, Number>)
    ensures
        r.wf(),
        r.f.base == 8,
        r.inner.label@ == "Expected octal number"@,
        r.inner.inner == (Match1_0 { prefix: Zero, suffix: OctalDigit }),
{
    Checked { inner: match1_0(Zero, OctalDigit).err("Expected octal number"), f: Number { base: 8 } }
}

/// hex_number := 0[xX] [0-9a-fA-F]+
pub fn hex_number() -> (r: Then<Label<Then<Lit, Or<Lit, Lit>>>, Checked<Label<Match<HexDigit>>, Number>>)
    ensures
        r.wf(),
        r.first.label@ == "Expected hex number"@,
        r.first.inner.first.pattern@ == "0"@,
        r.first.inner.second.first.pattern@ == "x"@,
        r.first.inner.second.second.pattern@ == "X"@,
        !r.first.inner.first.fold && !r.first.inner.second.first.fold && !r.first.inner.second.second.fold,
        r.second.inner.label@ == "Expected hex number"@,
        r.second.inner.inner == (Match { class: HexDigit, at_least_one: true }),
        r.second.f.base == 16,
{
    let prefix = lit("0")._then(lit("x").or(lit("X"))).err("Expected hex number");
    let digits = Checked { inner: match1(HexDigit).err("Expected hex number"), f: Number { base: 16 } };
    seq2_ret1(prefix, digits)
}

/// exponent := [eE] [+-]? [0-9]+
pub type Exponent = Recognize<Then<Then<OneOf, Optional<OneOf>>, Match<Digit>>>;

/// The text of a C99 floating constant:
///
/// float := float1 | float2 | float3
/// float1 := [0-9]* '.' [0-9]+ exponent?
/// float2 := [0-9]+ '.' exponent?
/// float3 := [0-9]+ exponent
pub fn float_text() -> (r: Label<
    Or<
        Or<
            Label<Recognize<Then<Then<Then<Match<Digit>, Lit>, Match<Digit>>, Optional<Exponent>>>>,
            Label<Recognize<Then<Then<Match<Digit>, Lit>, Optional<Exponent>>>>,
        >,
        Label<Recognize<Then<Match<Digit>, Exponent>>>,
    >,
>)
    ensures
        r.wf(),
{
    let float1 = seq4_ret_str(match0(Digit), lit("."), match1(Digit), exponent().optional()).err("");
    let float2 = seq3_ret_str(match1(Digit), lit("."), exponent().optional()).err("");
    let float3 = seq2_ret_str(match1(Digit), exponent()).err("");
    float1.or(float2).or(float3).err("Expected float number")
}

fn exponent() -> (r: Exponent)
    ensures
        r.wf(),
{
    seq3_ret_str(anyc("eE"), anyc("+-").optional(), match1(Digit))
}


/// Negates the number parsed after a minus sign.
pub struct Negate;

impl Check<(String, i64)> for Negate {
    type Out = i64;

    open spec fn wf(&self) -> bool {
        true
    }

    open spec fn spec_check(&self, a: (Seq<char>, i64)) -> Result<i64, Seq<char>> {
        if a.1 == i64::MIN {
            Err("Number is out of range"@)
        } else {
            Ok((-a.1) as i64)
        }
    }

    fn check(&self, a: (String, i64)) -> (r: Result<i64, String>) {
        if a.1 == i64::MIN {
            Err(string_from("Number is out of range"))
        } else {
            Ok(-a.1)
        }
    }
}

/// [0-9]+ read as a decimal number.
pub type Digits = Checked<Label<Match<Digit>>, Number>;

fn digits() -> (r: Digits)
    ensures
        r.wf(),
        r.inner.inner == (Match { class: Digit, at_least_one: true }),
        r.inner.label@ == "digits"@,
        r.f.base == 10,
{
    Checked { inner: match1(Digit).err("digits"), f: Number { base: 10 } }
}

/// integer := [+-]? [0-9]+
pub fn integer() -> (r: Or<Or<Then<Lit, Digits>, Checked<crate::combinators::Pair<Lit, Digits>, Negate>>, Digits>)
    ensures
        r.wf(),
        r.first.first.first.pattern@ == "+"@,
        !r.first.first.first.fold,
        r.first.second.inner.first.pattern@ == "-"@,
        !r.first.second.inner.first.fold,
        r.first.first.second.inner.inner == (Match { class: Digit, at_least_one: true }),
        r.first.second.inner.second.inner.inner == (Match { class: Digit, at_least_one: true }),
        r.second.inner.inner == (Match { class: Digit, at_least_one: true }),
        r.first.first.second.inner.label@ == "digits"@,
        r.first.second.inner.second.inner.label@ == "digits"@,
        r.second.inner.label@ == "digits"@,
{
    let plus = lit("+")._then(digits());
    let minus = Checked { inner: crate::combinators::Pair { first: lit("-"), second: digits() }, f: Negate };
    plus.or(minus).or(digits())
}

} // verus!
