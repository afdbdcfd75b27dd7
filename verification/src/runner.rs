//! The logic of the property runner: which property a name selects, the
//! canonical inputs that replay each property, how a property's result
//! becomes a verdict, how run metrics add up, and how text is quoted for the
//! JSON line that reports a run.

use crate::etna::{
    property_append_preserves_length, property_from_vec_zero_capacity,
    property_leak_inline_panics, PropertyResult,
};
use crate::text::{append_decimal, decimal_text, string_push};
use vstd::prelude::*;

verus! {

broadcast use vstd::string::group_string_axioms;

/// The lowercase hexadecimal digit of `d`, for `d < 16`.
pub open spec fn hex_digit(d: nat) -> char {
    seq!['0', '1', '2', '3', '4', '5', '6', '7', '8', '9', 'a', 'b', 'c', 'd', 'e', 'f'][d as int]
}

/// How one character is written inside a JSON string: quote, backslash,
/// newline, carriage return and tab by their short escapes, other control
/// characters as `\u00XX`, everything else as itself.
pub open spec fn json_escaped_char(c: char) -> Seq<char> {
    if c == '"' {
        seq!['\\', '"']
    } else if c == '\\' {
        seq!['\\', '\\']
    } else if c == '\n' {
        seq!['\\', 'n']
    } else if c == '\r' {
        seq!['\\', 'r']
    } else if c == '\t' {
        seq!['\\', 't']
    } else if (c as u32) < 0x20 {
        seq!['\\', 'u', '0', '0', hex_digit((c as u32 / 16) as nat), hex_digit((c as u32 % 16) as nat)]
    } else {
        seq![c]
    }
}

/// The characters of `s`, each written as `json_escaped_char` writes it.
pub open spec fn json_escaped(s: Seq<char>) -> Seq<char>
    decreases s.len(),
{
    if s.len() == 0 {
        Seq::empty()
    } else {
        json_escaped(s.drop_last()) + json_escaped_char(s.last())
    }
}

/// `s` as a JSON string literal: escaped, between double quotes.
pub open spec fn json_quoted(s: Seq<char>) -> Seq<char> {
    seq!['"'] + json_escaped(s) + seq!['"']
}

fn hex_char(d: u32) -> (c: char)
    requires
        d < 16,
    ensures
        c == hex_digit(d as nat),
{
    match d {
        0 => '0',
        1 => '1',
        2 => '2',
        3 => '3',
        4 => '4',
        5 => '5',
        6 => '6',
        7 => '7',
        8 => '8',
        9 => '9',
        10 => 'a',
        11 => 'b',
        12 => 'c',
        13 => 'd',
        14 => 'e',
        _ => 'f',
    }
}

/// Appends `c` to `out` as it is written inside a JSON string.
fn push_json_escaped_char(out: &mut String, c: char)
    ensures
        final(out)@ == old(out)@ + json_escaped_char(c),
{
    if c == '"' {
        string_push(out, '\\');
        string_push(out, '"');
    } else if c == '\\' {
        string_push(out, '\\');
        string_push(out, '\\');
    } else if c == '\n' {
        string_push(out, '\\');
        string_push(out, 'n');
    } else if c == '\r' {
        string_push(out, '\\');
        string_push(out, 'r');
    } else if c == '\t' {
        string_push(out, '\\');
        string_push(out, 't');
    } else if (c as u32) < 0x20 {
        let code = c as u32;
        string_push(out, '\\');
        string_push(out, 'u');
        string_push(out, '0');
        string_push(out, '0');
        string_push(out, hex_char(code / 16));
        string_push(out, hex_char(code % 16));
    } else {
        string_push(out, c);
    }
    assert(final(out)@ =~= old(out)@ + json_escaped_char(c));
}

/// The value of a hexadecimal digit (either case).
pub open spec fn hex_value(c: char) -> Option<nat> {
    let k = c as u32;
    if 48 <= k <= 57 {
        Some((k - 48) as nat)
    } else if 97 <= k <= 102 {
        Some((k - 87) as nat)
    } else if 65 <= k <= 70 {
        Some((k - 55) as nat)
    } else {
        None
    }
}

/// The character that a one-letter escape `\e` stands for in JSON.
pub open spec fn json_short_escape(e: char) -> Option<char> {
    if e == '"' {
        Some('"')
    } else if e == '\\' {
        Some('\\')
    } else if e == '/' {
        Some('/')
    } else if e == 'b' {
        Some('\x08')
    } else if e == 'f' {
        Some('\x0c')
    } else if e == 'n' {
        Some('\n')
    } else if e == 'r' {
        Some('\r')
    } else if e == 't' {
        Some('\t')
    } else {
        None
    }
}

/// The code point that the four hexadecimal digits `t[2..6]` write.
pub open spec fn json_unicode_escape_value(t: Seq<char>) -> Option<nat> {
    match (hex_value(t[2]), hex_value(t[3]), hex_value(t[4]), hex_value(t[5])) {
        (Some(a), Some(b), Some(c), Some(d)) => Some(4096 * a + 256 * b + 16 * c + d),
        _ => None,
    }
}

/// The characters that the body of a JSON string literal (the text between
/// its quotes) stands for, read from the front: an escape `\"`, `\\`, `\/`,
/// `\b`, `\f`, `\n`, `\r`, `\t` or `\uXXXX` gives one character, any other
/// character but a quote or a control character stands for itself. `None`
/// where the body is not valid; escapes of surrogate halves are not read
/// here (none is ever written by `json_str`).
pub open spec fn json_unescaped(t: Seq<char>) -> Option<Seq<char>>
    decreases t.len(),
{
    if t.len() == 0 {
        Some(Seq::empty())
    } else if t[0] == '\\' {
        if t.len() < 2 {
            None
        } else if json_short_escape(t[1]) is Some {
            match json_unescaped(t.skip(2)) {
                Some(rest) => Some(seq![json_short_escape(t[1])->0] + rest),
                None => None,
            }
        } else if t[1] == 'u' && t.len() >= 6 && json_unicode_escape_value(t) is Some {
            let v = json_unicode_escape_value(t)->0;
            if 0xD800 <= v <= 0xDFFF {
                None
            } else {
                match json_unescaped(t.skip(6)) {
                    Some(rest) => Some(seq![(v as u32) as char] + rest),
                    None => None,
                }
            }
        } else {
            None
        }
    } else if t[0] == '"' || (t[0] as u32) < 0x20 {
        None
    } else {
        match json_unescaped(t.skip(1)) {
            Some(rest) => Some(seq![t[0]] + rest),
            None => None,
        }
    }
}

/// The string that a JSON string literal stands for, if `t` is one.
pub open spec fn json_string_value(t: Seq<char>) -> Option<Seq<char>> {
    if t.len() >= 2 && t[0] == '"' && t.last() == '"' {
        json_unescaped(t.subrange(1, t.len() - 1))
    } else {
        None
    }
}

proof fn lemma_hex_digit_value(d: nat)
    requires
        d < 16,
    ensures
        hex_value(hex_digit(d)) == Some(d),
{
}

/// Reading the escape of one character gives back that character.
proof fn lemma_unescape_one(c: char, r: Seq<char>)
    ensures
        json_unescaped(json_escaped_char(c) + r) == match json_unescaped(r) {
            Some(x) => Some(seq![c] + x),
            None => None::<Seq<char>>,
        },
{
    let t = json_escaped_char(c) + r;
    if c == '"' || c == '\\' || c == '\n' || c == '\r' || c == '\t' {
        assert(t.skip(2) =~= r);
    } else if (c as u32) < 0x20 {
        let k = c as u32;
        lemma_hex_digit_value((k / 16) as nat);
        lemma_hex_digit_value((k % 16) as nat);
        assert(t[2] == '0' && t[3] == '0');
        assert(json_unicode_escape_value(t) == Some(k as nat));
        assert(t.skip(6) =~= r);
        assert(((k as nat) as u32) as char == c);
    } else {
        assert(t.skip(1) =~= r);
    }
}

/// Reading the escaped text of `s` followed by more text gives `s`
/// followed by what the rest stands for.
proof fn lemma_unescape_prefix(s: Seq<char>, r: Seq<char>)
    ensures
        json_unescaped(json_escaped(s) + r) == match json_unescaped(r) {
            Some(x) => Some(s + x),
            None => None::<Seq<char>>,
        },
    decreases s.len(),
{
    if s.len() == 0 {
        assert(json_escaped(s) + r =~= r);
        match json_unescaped(r) {
            Some(x) => assert(s + x =~= x),
            None => {},
        }
    } else {
        let p = s.drop_last();
        let c = s.last();
        assert(json_escaped(s) + r =~= json_escaped(p) + (json_escaped_char(c) + r));
        lemma_unescape_prefix(p, json_escaped_char(c) + r);
        lemma_unescape_one(c, r);
        match json_unescaped(r) {
            Some(x) => assert(p + (seq![c] + x) =~= s + x),
            None => {},
        }
    }
}

/// Reading the JSON string literal that `json_quoted` writes for `s` gives
/// back exactly `s`.
pub proof fn lemma_json_quoted_round_trip(s: Seq<char>)
    ensures
        json_string_value(json_quoted(s)) == Some(s),
{
    let q = json_quoted(s);
    assert(q.subrange(1, q.len() - 1) =~= json_escaped(s) + Seq::<char>::empty());
    lemma_unescape_prefix(s, Seq::<char>::empty());
    assert(s + Seq::<char>::empty() =~= s);
}

/// The text that `json_quoted` writes holds no control character (nothing
/// below U+0020).
pub proof fn lemma_json_quoted_has_no_control_characters(s: Seq<char>)
    ensures
        forall|i: int| 0 <= i < json_quoted(s).len() ==> (#[trigger] json_quoted(s)[i] as u32) >= 0x20,
{
    lemma_json_escaped_has_no_control_characters(s);
    let q = json_quoted(s);
    let e = json_escaped(s);
    assert forall|i: int| 0 <= i < q.len() implies (#[trigger] q[i] as u32) >= 0x20 by {
        if 1 <= i < q.len() - 1 {
            assert(q[i] == e[i - 1]);
        }
    }
}

proof fn lemma_json_escaped_has_no_control_characters(s: Seq<char>)
    ensures
        forall|i: int| 0 <= i < json_escaped(s).len() ==> (#[trigger] json_escaped(s)[i] as u32) >= 0x20,
    decreases s.len(),
{
    if s.len() > 0 {
        let p = s.drop_last();
        let c = s.last();
        lemma_json_escaped_has_no_control_characters(p);
        let a = json_escaped(p);
        let b = json_escaped_char(c);
        if (c as u32) < 0x20 && c != '\n' && c != '\r' && c != '\t' {
            let k = c as u32;
            assert((hex_digit((k / 16) as nat) as u32) >= 0x20);
            assert((hex_digit((k % 16) as nat) as u32) >= 0x20);
        }
        assert forall|j: int| 0 <= j < b.len() implies (#[trigger] b[j] as u32) >= 0x20 by {}
        assert forall|i: int| 0 <= i < json_escaped(s).len() implies (#[trigger] json_escaped(
            s,
        )[i] as u32) >= 0x20 by {
            if i < a.len() {
                assert(json_escaped(s)[i] == a[i]);
            } else {
                assert(json_escaped(s)[i] == b[i - a.len()]);
            }
        }
    }
}

/// `s` as a JSON string literal.
pub fn json_str(s: &str) -> (quoted: String)
    ensures
        quoted@ == json_quoted(s@),
{
    let mut out = String::new();
    string_push(&mut out, '"');
    for c in it: s.chars()
        invariant
            it.seq() == s@,
            out@ == seq!['"'] + json_escaped(s@.take(it.index())),
    {
        assert(s@.take(it.index() + 1).drop_last() =~= s@.take(it.index()));
        push_json_escaped_char(&mut out, c);
    }
    assert(s@.take(s@.len() as int) =~= s@);
    string_push(&mut out, '"');
    assert(out@ =~= json_quoted(s@));
    out
}

/// Counts of one run: how many inputs were tried and how long it took.
#[derive(Clone, Copy)]
pub struct Metrics {
    pub inputs: u64,
    pub elapsed_us: u128,
}

impl Default for Metrics {
    fn default() -> (m: Metrics)
        ensures
            m.inputs == 0,
            m.elapsed_us == 0,
    {
        Metrics { inputs: 0, elapsed_us: 0 }
    }
}

impl Metrics {
    /// The metrics of two runs together: the inputs and the times add up.
    pub fn combine(self, other: Metrics) -> (m: Metrics)
        requires
            self.inputs + other.inputs <= u64::MAX,
            self.elapsed_us + other.elapsed_us <= u128::MAX,
        ensures
            m.inputs == self.inputs + other.inputs,
            m.elapsed_us == self.elapsed_us + other.elapsed_us,
    {
        Metrics {
            inputs: self.inputs + other.inputs,
            elapsed_us: self.elapsed_us + other.elapsed_us,
        }
    }
}

/// Turns a property's result into `Ok` (it held, or the input was set
/// aside) or `Err` with the message of its failure.
pub fn to_err(r: PropertyResult) -> (verdict: Result<(), String>)
    ensures
        r is Fail ==> verdict == Err::<(), String>(r->Fail_0),
        !(r is Fail) ==> verdict is Ok,
{
    match r {
        PropertyResult::Pass | PropertyResult::Discard => Ok(()),
        PropertyResult::Fail(m) => Err(m),
    }
}

/// The inputs of `property_leak_inline_panics`.
pub struct LeakInput {
    pub values: Vec<u8>,
    pub inline_cap: u8,
}

/// The inputs of `property_append_preserves_length`.
pub struct AppendInput {
    pub a: Vec<i64>,
    pub b: Vec<i64>,
}

/// The input of `property_from_vec_zero_capacity`.
pub struct FromVecZeroInput {
    pub push_after: Vec<u16>,
}

/// One byte, with the tag that selects inline size 4: the byte stays inline.
pub fn canonical_leak() -> (input: LeakInput)
    ensures
        input.values@ == seq![0x42u8],
        input.inline_cap == 1,
{
    let mut values: Vec<u8> = Vec::new();
    values.push(0x42);
    LeakInput { values, inline_cap: 1 }
}

/// `[1, 2, 3]` and `[4, 5]`.
pub fn canonical_append() -> (input: AppendInput)
    ensures
        input.a@ == seq![1i64, 2, 3],
        input.b@ == seq![4i64, 5],
{
    let mut a: Vec<i64> = Vec::new();
    a.push(1);
    a.push(2);
    a.push(3);
    let mut b: Vec<i64> = Vec::new();
    b.push(4);
    b.push(5);
    AppendInput { a, b }
}

/// `[7, 8, 9]`.
pub fn canonical_from_vec_zero() -> (input: FromVecZeroInput)
    ensures
        input.push_after@ == seq![7u16, 8, 9],
{
    let mut push_after: Vec<u16> = Vec::new();
    push_after.push(7);
    push_after.push(8);
    push_after.push(9);
    FromVecZeroInput { push_after }
}

/// Replays `property_leak_inline_panics` on its canonical input.
pub fn check_leak_inline_panics() -> (verdict: Result<(), String>)
    ensures
        verdict is Ok,
{
    let v = canonical_leak();
    to_err(property_leak_inline_panics(v.values, v.inline_cap))
}

/// Replays `property_append_preserves_length` on its canonical input.
pub fn check_append_preserves_length() -> (verdict: Result<(), String>)
    ensures
        verdict is Ok,
{
    let v = canonical_append();
    proof {
        crate::pow2::lemma_max_usize_power_of_two();
    }
    to_err(property_append_preserves_length(v.a, v.b))
}

/// Replays `property_from_vec_zero_capacity` on its canonical input.
pub fn check_from_vec_zero_capacity() -> (verdict: Result<(), String>)
    ensures
        verdict is Ok,
{
    let v = canonical_from_vec_zero();
    proof {
        crate::pow2::lemma_max_usize_power_of_two();
    }
    to_err(property_from_vec_zero_capacity(v.push_after))
}

/// Whether two texts hold the same characters.
fn same_text(a: &str, b: &str) -> (same: bool)
    ensures
        same == (a@ == b@),
{
    let n = a.unicode_len();
    if n != b.unicode_len() {
        return false;
    }
    let mut i: usize = 0;
    while i < n
        invariant
            n == a@.len(),
            n == b@.len(),
            i <= n,
            forall|j: int| 0 <= j < i ==> a@[j] == b@[j],
        decreases n - i,
    {
        if a.get_char(i) != b.get_char(i) {
            return false;
        }
        i += 1;
    }
    assert(a@ =~= b@);
    true
}

/// The properties of `SmallVec` that the runner knows.
#[derive(Clone, Copy, Debug, PartialEq, Eq, Structural)]
pub enum PropertyName {
    LeakInlinePanics,
    AppendPreservesLength,
    FromVecZeroCapacity,
}

/// The name under which a property is selected.
pub open spec fn property_name_text(p: PropertyName) -> Seq<char> {
    match p {
        PropertyName::LeakInlinePanics => "LeakInlinePanics"@,
        PropertyName::AppendPreservesLength => "AppendPreservesLength"@,
        PropertyName::FromVecZeroCapacity => "FromVecZeroCapacity"@,
    }
}

/// Distinct properties have distinct names, so parsing a property's name
/// (`parse_property_name`) gives back that property.
pub proof fn lemma_property_names_distinct(p: PropertyName, q: PropertyName)
    requires
        p != q,
    ensures
        property_name_text(p) != property_name_text(q),
{
    reveal_strlit("LeakInlinePanics");
    reveal_strlit("AppendPreservesLength");
    reveal_strlit("FromVecZeroCapacity");
    assert("LeakInlinePanics"@[0] != "AppendPreservesLength"@[0]);
    assert("LeakInlinePanics"@[0] != "FromVecZeroCapacity"@[0]);
    assert("AppendPreservesLength"@[0] != "FromVecZeroCapacity"@[0]);
}

impl PropertyName {
    /// The name under which the property is selected.
    pub fn name(&self) -> (text: &'static str)
        ensures
            text@ == property_name_text(*self),
    {
        match self {
            PropertyName::LeakInlinePanics => "LeakInlinePanics",
            PropertyName::AppendPreservesLength => "AppendPreservesLength",
            PropertyName::FromVecZeroCapacity => "FromVecZeroCapacity",
        }
    }
}

/// Every property, in the order in which a run of all of them goes.
pub fn all_properties() -> (ps: Vec<PropertyName>)
    ensures
        ps@ == seq![
            PropertyName::LeakInlinePanics,
            PropertyName::AppendPreservesLength,
            PropertyName::FromVecZeroCapacity,
        ],
{
    let mut ps: Vec<PropertyName> = Vec::new();
    ps.push(PropertyName::LeakInlinePanics);
    ps.push(PropertyName::AppendPreservesLength);
    ps.push(PropertyName::FromVecZeroCapacity);
    ps
}

/// The property that `text` names, if any.
pub fn parse_property_name(text: &str) -> (p: Option<PropertyName>)
    ensures
        p matches Some(q) ==> property_name_text(q) == text@,
        p is None ==> forall|q: PropertyName| property_name_text(q) != text@,
{
    let names = all_properties();
    let mut i: usize = 0;
    while i < names.len()
        invariant
            names@ == seq![
                PropertyName::LeakInlinePanics,
                PropertyName::AppendPreservesLength,
                PropertyName::FromVecZeroCapacity,
            ],
            i <= names.len(),
            forall|j: int| 0 <= j < i ==> property_name_text(#[trigger] names@[j]) != text@,
        decreases names.len() - i,
    {
        let q = names[i];
        if same_text(q.name(), text) {
            return Some(q);
        }
        i += 1;
    }
    assert forall|q: PropertyName| property_name_text(q) != text@ by {
        match q {
            PropertyName::LeakInlinePanics => assert(property_name_text(names@[0]) != text@),
            PropertyName::AppendPreservesLength => assert(property_name_text(names@[1]) != text@),
            PropertyName::FromVecZeroCapacity => assert(property_name_text(names@[2]) != text@),
        }
    }
    None
}

/// Whether `text` selects every property at once.
pub fn selects_all(text: &str) -> (all: bool)
    ensures
        all == (text@ == "All"@),
{
    same_text(text, "All")
}

/// The tools that can run a property.
#[derive(Clone, Copy, Debug, PartialEq, Eq, Structural)]
pub enum Tool {
    Etna,
    Proptest,
    Quickcheck,
    Crabcheck,
    Hegel,
}

/// The name under which a tool is selected.
pub open spec fn tool_text(t: Tool) -> Seq<char> {
    match t {
        Tool::Etna => "etna"@,
        Tool::Proptest => "proptest"@,
        Tool::Quickcheck => "quickcheck"@,
        Tool::Crabcheck => "crabcheck"@,
        Tool::Hegel => "hegel"@,
    }
}

/// Distinct tools have distinct names, so parsing a tool's name
/// (`parse_tool`) gives back that tool.
pub proof fn lemma_tool_names_distinct(t: Tool, u: Tool)
    requires
        t != u,
    ensures
        tool_text(t) != tool_text(u),
{
    reveal_strlit("etna");
    reveal_strlit("proptest");
    reveal_strlit("quickcheck");
    reveal_strlit("crabcheck");
    reveal_strlit("hegel");
    assert(tool_text(t)[0] != tool_text(u)[0]);
}

impl Tool {
    /// The name under which the tool is selected.
    pub fn name(&self) -> (text: &'static str)
        ensures
            text@ == tool_text(*self),
    {
        match self {
            Tool::Etna => "etna",
            Tool::Proptest => "proptest",
            Tool::Quickcheck => "quickcheck",
            Tool::Crabcheck => "crabcheck",
            Tool::Hegel => "hegel",
        }
    }
}

/// The error of a run that asked `tool` for a property it does not know.
pub fn unknown_property_message(tool: Tool, property: &str) -> (message: String)
    ensures
        message@ == "Unknown property for "@ + tool_text(tool) + ": "@ + property@,
{
    let mut message = String::from_str("Unknown property for ");
    message.append(tool.name());
    message.append(": ");
    message.append(property);
    message
}

/// The error of a run that asked for a tool that does not exist.
pub fn unknown_tool_message(tool: &str) -> (message: String)
    ensures
        message@ == "Unknown tool: "@ + tool@,
{
    let mut message = String::from_str("Unknown tool: ");
    message.append(tool);
    message
}

/// `text` without `prefix` in front, where it starts with it.
pub open spec fn without_prefix(text: Seq<char>, prefix: Seq<char>) -> Seq<char> {
    if prefix.len() <= text.len() && text.take(prefix.len() as int) == prefix {
        text.skip(prefix.len() as int)
    } else {
        text
    }
}

/// The counterexample that a failed hegel run reports: its panic message
/// without the `Property test failed: ` that hegel puts before it.
pub fn hegel_failure_message(message: &str) -> (text: String)
    ensures
        text@ == without_prefix(message@, "Property test failed: "@),
{
    let prefix = "Property test failed: ";
    let n = message.unicode_len();
    let p = prefix.unicode_len();
    if p <= n && same_text(message.substring_char(0, p), prefix) {
        String::from_str(message.substring_char(p, n))
    } else {
        proof {
            if prefix@.len() <= message@.len() {
                assert(message@.take(prefix@.len() as int) =~= message@.subrange(0, p as int));
            }
        }
        String::from_str(message)
    }
}

/// The tool that `text` names, if any.
pub fn parse_tool(text: &str) -> (t: Option<Tool>)
    ensures
        t matches Some(u) ==> tool_text(u) == text@,
        t is None ==> forall|u: Tool| tool_text(u) != text@,
{
    if same_text(text, "etna") {
        Some(Tool::Etna)
    } else if same_text(text, "proptest") {
        Some(Tool::Proptest)
    } else if same_text(text, "quickcheck") {
        Some(Tool::Quickcheck)
    } else if same_text(text, "crabcheck") {
        Some(Tool::Crabcheck)
    } else if same_text(text, "hegel") {
        Some(Tool::Hegel)
    } else {
        None
    }
}

/// Replays the named property on its canonical input.
pub fn check_property(p: PropertyName) -> (verdict: Result<(), String>)
    ensures
        verdict is Ok,
{
    match p {
        PropertyName::LeakInlinePanics => check_leak_inline_panics(),
        PropertyName::AppendPreservesLength => check_append_preserves_length(),
        PropertyName::FromVecZeroCapacity => check_from_vec_zero_capacity(),
    }
}

/// `text` as a JSON string literal, or `null` when there is none.
pub open spec fn json_or_null(text: Option<&str>) -> Seq<char> {
    match text {
        Some(t) => json_quoted(t@),
        None => "null"@,
    }
}

/// A field of the report line reads back as exactly the text given for it
/// (the whole text, whatever its length), and is `null` when there is none.
pub proof fn lemma_json_or_null_reads_back(text: Option<&str>)
    ensures
        text matches Some(t) ==> json_string_value(json_or_null(text)) == Some(t@),
        text is None ==> json_or_null(text) == "null"@,
{
    if let Some(t) = text {
        lemma_json_quoted_round_trip(t@);
    }
}

fn append_json_or_null(line: &mut String, text: Option<&str>)
    ensures
        final(line)@ == old(line)@ + json_or_null(text),
{
    match text {
        Some(t) => line.append(json_str(t).as_str()),
        None => line.append("null"),
    }
}

/// The JSON line that reports one run: its status, the number of inputs
/// tried, the elapsed time in microseconds, the counterexample and the
/// error (each or `null`), and the tool and property that ran.
pub fn report_line(
    tool: &str,
    property: &str,
    status: &str,
    metrics: Metrics,
    counterexample: Option<&str>,
    error: Option<&str>,
) -> (line: String)
    ensures
        line@ == "{\"status\":"@ + json_quoted(status@) + ",\"tests\":"@ + decimal_text(
            metrics.inputs as nat,
        ) + ",\"discards\":0,\"time\":"@ + json_quoted(
            decimal_text(metrics.elapsed_us as nat) + "us"@,
        ) + ",\"counterexample\":"@ + json_or_null(counterexample) + ",\"error\":"@
            + json_or_null(error) + ",\"tool\":"@ + json_quoted(tool@) + ",\"property\":"@
            + json_quoted(property@) + "}"@,
{
    let mut line = String::from_str("{\"status\":");
    line.append(json_str(status).as_str());
    line.append(",\"tests\":");
    append_decimal(&mut line, metrics.inputs as u128);
    line.append(",\"discards\":0,\"time\":");
    let mut time = String::new();
    append_decimal(&mut time, metrics.elapsed_us);
    time.append("us");
    assert(time@ =~= decimal_text(metrics.elapsed_us as nat) + "us"@);
    line.append(json_str(time.as_str()).as_str());
    line.append(",\"counterexample\":");
    append_json_or_null(&mut line, counterexample);
    line.append(",\"error\":");
    append_json_or_null(&mut line, error);
    line.append(",\"tool\":");
    line.append(json_str(tool).as_str());
    line.append(",\"property\":");
    line.append(json_str(property).as_str());
    line.append("}");
    assert(line@ =~= "{\"status\":"@ + json_quoted(status@) + ",\"tests\":"@ + decimal_text(
        metrics.inputs as nat,
    ) + ",\"discards\":0,\"time\":"@ + json_quoted(
        decimal_text(metrics.elapsed_us as nat) + "us"@,
    ) + ",\"counterexample\":"@ + json_or_null(counterexample) + ",\"error\":"@
        + json_or_null(error) + ",\"tool\":"@ + json_quoted(tool@) + ",\"property\":"@
        + json_quoted(property@) + "}"@);
    line
}

/// One step of running every property in turn: the metrics so far take in
/// this property's, and a failure ends the run with its message.
pub fn run_all_step(total: Metrics, result: Result<(), String>, metrics: Metrics) -> (step: (
    Metrics,
    Option<String>,
))
    requires
        total.inputs + metrics.inputs <= u64::MAX,
        total.elapsed_us + metrics.elapsed_us <= u128::MAX,
    ensures
        step.0.inputs == total.inputs + metrics.inputs,
        step.0.elapsed_us == total.elapsed_us + metrics.elapsed_us,
        step.1 == match result {
            Ok(_) => None::<String>,
            Err(e) => Some(e),
        },
{
    let total = total.combine(metrics);
    match result {
        Ok(()) => (total, None),
        Err(e) => (total, Some(e)),
    }
}

/// `c` is one of `0` to `9`.
pub open spec fn is_ascii_digit(c: char) -> bool {
    48 <= (c as u32) <= 57
}

/// The number that a string of decimal digits writes.
pub open spec fn digits_value(s: Seq<char>) -> nat
    decreases s.len(),
{
    if s.len() == 0 {
        0
    } else {
        digits_value(s.drop_last()) * 10 + ((s.last() as u32) - 48) as nat
    }
}

/// The digits of a number's text: without one leading `+`, if there is one.
pub open spec fn unsigned_digits(s: Seq<char>) -> Seq<char> {
    if s.len() > 0 && s[0] == '+' {
        s.drop_first()
    } else {
        s
    }
}

/// The `u64` that `s` writes, as `str::parse::<u64>` reads it: an optional
/// `+`, then at least one decimal digit and nothing else, with a value
/// that fits.
pub open spec fn parsed_u64(s: Seq<char>) -> Option<nat> {
    let d = unsigned_digits(s);
    if d.len() > 0 && (forall|i: int| 0 <= i < d.len() ==> is_ascii_digit(#[trigger] d[i]))
        && digits_value(d) <= u64::MAX {
        Some(digits_value(d))
    } else {
        None
    }
}

/// A prefix of a digit string writes at most the number of the whole.
proof fn lemma_digits_value_prefix(s: Seq<char>, k: int)
    requires
        0 <= k <= s.len(),
        forall|i: int| 0 <= i < s.len() ==> is_ascii_digit(#[trigger] s[i]),
    ensures
        digits_value(s.take(k)) <= digits_value(s),
    decreases s.len(),
{
    if k == s.len() {
        assert(s.take(k) =~= s);
    } else {
        let t = s.drop_last();
        assert(t.take(k) =~= s.take(k));
        assert forall|i: int| 0 <= i < t.len() implies is_ascii_digit(#[trigger] t[i]) by {
            assert(t[i] == s[i]);
        }
        lemma_digits_value_prefix(t, k);
    }
}

fn parse_u64(text: &str) -> (r: Option<u64>)
    ensures
        r matches Some(v) ==> parsed_u64(text@) == Some(v as nat),
        r is None ==> parsed_u64(text@) is None,
{
    let n = text.unicode_len();
    let mut start: usize = 0;
    if n > 0 && text.get_char(0) == '+' {
        start = 1;
    }
    let ghost d = unsigned_digits(text@);
    assert(d =~= text@.skip(start as int));
    if start == n {
        return None;
    }
    let mut value: u64 = 0;
    let mut i: usize = start;
    while i < n
        invariant
            n == text@.len(),
            start <= i <= n,
            d == text@.skip(start as int),
            d == unsigned_digits(text@),
            value == digits_value(d.take(i - start)),
            forall|k: int| 0 <= k < i - start ==> is_ascii_digit(#[trigger] d[k]),
        decreases n - i,
    {
        let c = text.get_char(i);
        let code = c as u32;
        assert(d[i - start] == c);
        if code < 48 || code > 57 {
            assert(!is_ascii_digit(d[i - start]));
            assert(!(forall|k: int| 0 <= k < d.len() ==> is_ascii_digit(#[trigger] d[k])));
            return None;
        }
        let digit = (code - 48) as u64;
        assert(d.take(i - start + 1).drop_last() =~= d.take(i - start));
        assert(d.take(i - start + 1).last() == c);
        assert(digits_value(d.take(i - start + 1)) == value * 10 + digit);
        if value > (u64::MAX - digit) / 10 {
            proof {
                assert(value * 10 + digit > u64::MAX) by (nonlinear_arith)
                    requires
                        value > (u64::MAX - digit) / 10,
                        digit <= 9,
                ;
                if forall|k: int| 0 <= k < d.len() ==> is_ascii_digit(#[trigger] d[k]) {
                    lemma_digits_value_prefix(d, i - start + 1);
                }
            }
            return None;
        }
        assert(value * 10 + digit <= u64::MAX) by (nonlinear_arith)
            requires
                value <= (u64::MAX - digit) / 10,
                digit <= 9,
        ;
        value = value * 10 + digit;
        i += 1;
    }
    assert(d.take(n - start) =~= d);
    Some(value)
}

/// The number of cases each tool tries: the value of `ETNA_CASES` when it
/// is set to a `u64`, else 200.
pub open spec fn cases_budget_for(text: Option<&str>) -> nat {
    match text {
        Some(t) => match parsed_u64(t@) {
            Some(v) => v,
            None => 200,
        },
        None => 200,
    }
}

/// The number of cases each tool tries, from the text of `ETNA_CASES` (if
/// it is set): its value when it reads as a `u64`, else 200.
pub fn cases_budget_from(text: Option<&str>) -> (n: u64)
    ensures
        n == cases_budget_for(text),
{
    match text {
        Some(t) => match parse_u64(t) {
            Some(v) => v,
            None => 200,
        },
        None => 200,
    }
}

} // verus!
