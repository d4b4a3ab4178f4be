//! The console's command language: a line of text is trimmed, split at
//! single spaces, and read as a command with its arguments.

use vstd::prelude::*;
use crate::materials::MatIndex;

verus! {

/// What a line of the console asks for.
#[derive(Clone, Copy, Debug, PartialEq, Eq, Structural)]
pub enum Request {
    /// `exit` or `quit`: leave the program.
    Exit,
    /// `pass <time>`: let time pass.
    Pass(u32),
    /// `spawn <material> <x> <y> [size]`: put a material around a position.
    Spawn { material: MatIndex, x: usize, y: usize, size: Option<usize> },
    /// `temp <celsius> <x> <y> [size]`: set the temperature around a position.
    Temp { celsius: i16, x: usize, y: usize, size: Option<usize> },
}

/// Why a line of the console was not understood.
#[derive(Clone, Copy, Debug, PartialEq, Eq, Structural)]
pub enum Refusal {
    /// The command needs more arguments than the line has.
    MissingArguments,
    /// An argument is not a number of the kind that the command takes.
    BadArguments,
    /// The line does not begin with the name of a command.
    UnknownCommand,
}

/// Whether `c` is white space: a character with the Unicode property
/// `White_Space`.
pub open spec fn is_whitespace(c: char) -> bool {
    let u = c as u32;
    (0x09 <= u <= 0x0D) || u == 0x20 || u == 0x85 || u == 0xA0 || u == 0x1680 || (0x2000 <= u
        <= 0x200A) || u == 0x2028 || u == 0x2029 || u == 0x202F || u == 0x205F || u == 0x3000
}

/// `s` without the white space that it begins with.
pub open spec fn trim_start(s: Seq<char>) -> Seq<char>
    decreases s.len(),
{
    if s.len() > 0 && is_whitespace(s[0]) {
        trim_start(s.drop_first())
    } else {
        s
    }
}

/// `s` without the white space that it ends with.
pub open spec fn trim_end(s: Seq<char>) -> Seq<char>
    decreases s.len(),
{
    if s.len() > 0 && is_whitespace(s.last()) {
        trim_end(s.drop_last())
    } else {
        s
    }
}

/// `s` without the white space at either end.
pub open spec fn trim(s: Seq<char>) -> Seq<char> {
    trim_end(trim_start(s))
}

/// The number of characters of `s` before its first space.
pub open spec fn field_len(s: Seq<char>) -> int
    decreases s.len(),
{
    if s.len() == 0 || s[0] == ' ' {
        0
    } else {
        1 + field_len(s.drop_first())
    }
}

/// The pieces that `s` falls into when it is cut at every space. There is
/// always a first one, and between two spaces in a row lies an empty one.
pub open spec fn fields(s: Seq<char>) -> Seq<Seq<char>>
    decreases s.len(),
{
    let n = field_len(s);
    if 0 <= n < s.len() {
        seq![s.take(n)] + fields(s.skip(n + 1))
    } else {
        seq![s]
    }
}

/// Whether `c` is one of the digits `0` to `9`.
pub open spec fn is_digit(c: char) -> bool {
    '0' <= c <= '9'
}

/// The value of the digit `c`.
pub open spec fn digit_value(c: char) -> int {
    if is_digit(c) {
        c as u32 - '0' as u32
    } else {
        0
    }
}

/// Whether `s` holds digits only.
pub open spec fn all_digits(s: Seq<char>) -> bool {
    forall|i: int| 0 <= i < s.len() ==> is_digit(#[trigger] s[i])
}

/// The number that the digits `s` write in base ten.
pub open spec fn decimal(s: Seq<char>) -> int
    decreases s.len(),
{
    if s.len() == 0 {
        0
    } else {
        decimal(s.drop_last()) * 10 + digit_value(s.last())
    }
}

/// The number that `digits` write, where they are digits, at least one, and
/// the number is at most `max`.
pub open spec fn magnitude(digits: Seq<char>, max: int) -> Option<int> {
    if digits.len() > 0 && all_digits(digits) && decimal(digits) <= max {
        Some(decimal(digits))
    } else {
        None
    }
}

/// The number that `token` writes without a sign or after `+`, if it is at
/// most `max`.
pub open spec fn unsigned(token: Seq<char>, max: int) -> Option<int> {
    if token.len() > 0 && token[0] == '+' {
        magnitude(token.skip(1), max)
    } else {
        magnitude(token, max)
    }
}

/// The number that `token` writes, with or without a sign, if it lies
/// between `min` and `max`, where `min` is negative.
pub open spec fn signed(token: Seq<char>, min: int, max: int) -> Option<int> {
    if token.len() > 0 && token[0] == '-' {
        match magnitude(token.skip(1), -min) {
            Some(m) => Some(-m),
            None => None,
        }
    } else {
        unsigned(token, max)
    }
}

/// A time, as `pass` takes it.
pub open spec fn time_of(token: Seq<char>) -> Option<u32> {
    match unsigned(token, u32::MAX as int) {
        Some(v) => Some(v as u32),
        None => None,
    }
}

/// A material, a coordinate or a size.
pub open spec fn index_of(token: Seq<char>) -> Option<usize> {
    match unsigned(token, usize::MAX as int) {
        Some(v) => Some(v as usize),
        None => None,
    }
}

/// A temperature in degrees Celsius.
pub open spec fn celsius_of(token: Seq<char>) -> Option<i16> {
    match signed(token, i16::MIN as int, i16::MAX as int) {
        Some(v) => Some(v as i16),
        None => None,
    }
}

/// The size that the fifth field gives, if there is one: `None` if it is no
/// number, `Some(None)` if the line has no fifth field.
pub open spec fn size_of(f: Seq<Seq<char>>) -> Option<Option<usize>> {
    if f.len() < 5 {
        Some(None)
    } else {
        match index_of(f[4]) {
            Some(size) => Some(Some(size)),
            None => None,
        }
    }
}

/// What the fields of a `pass` line ask for.
pub open spec fn pass_of(f: Seq<Seq<char>>) -> Result<Request, Refusal> {
    if f.len() < 2 {
        Err(Refusal::MissingArguments)
    } else {
        match time_of(f[1]) {
            Some(time) => Ok(Request::Pass(time)),
            None => Err(Refusal::BadArguments),
        }
    }
}

/// What the fields of a `spawn` line ask for.
pub open spec fn spawn_of(f: Seq<Seq<char>>) -> Result<Request, Refusal> {
    if f.len() < 4 {
        Err(Refusal::MissingArguments)
    } else {
        match (index_of(f[1]), index_of(f[2]), index_of(f[3]), size_of(f)) {
            (Some(material), Some(x), Some(y), Some(size)) => Ok(
                Request::Spawn { material, x, y, size },
            ),
            _ => Err(Refusal::BadArguments),
        }
    }
}

/// What the fields of a `temp` line ask for.
pub open spec fn temp_of(f: Seq<Seq<char>>) -> Result<Request, Refusal> {
    if f.len() < 4 {
        Err(Refusal::MissingArguments)
    } else {
        match (celsius_of(f[1]), index_of(f[2]), index_of(f[3]), size_of(f)) {
            (Some(celsius), Some(x), Some(y), Some(size)) => Ok(
                Request::Temp { celsius, x, y, size },
            ),
            _ => Err(Refusal::BadArguments),
        }
    }
}

/// What the fields of a line ask for. The first field names the command;
/// arguments beyond those that the command takes are not looked at.
pub open spec fn request_of(f: Seq<Seq<char>>) -> Result<Request, Refusal> {
    if f[0] == "exit"@ || f[0] == "quit"@ {
        Ok(Request::Exit)
    } else if f[0] == "pass"@ {
        pass_of(f)
    } else if f[0] == "spawn"@ {
        spawn_of(f)
    } else if f[0] == "temp"@ {
        temp_of(f)
    } else {
        Err(Refusal::UnknownCommand)
    }
}

/// What a line of the console asks for.
pub open spec fn parse(line: Seq<char>) -> Result<Request, Refusal> {
    request_of(fields(trim(line)))
}

/// The characters of `text`.
fn chars_of(text: &str) -> (chars: Vec<char>)
    ensures
        chars@ == text@,
{
    let mut chars: Vec<char> = Vec::new();
    for c in it: text.chars()
        invariant
            it.seq() == text@,
            chars@ == it.seq().take(it.index() as int),
    {
        chars.push(c);
        assert(it.seq().take(it.index() + 1) =~= it.seq().take(it.index() as int).push(c));
    }
    assert(chars@ =~= text@);
    chars
}

/// Computes `is_whitespace`.
fn whitespace(c: char) -> (space: bool)
    ensures
        space == is_whitespace(c),
{
    let u = c as u32;
    (0x09 <= u && u <= 0x0D) || u == 0x20 || u == 0x85 || u == 0xA0 || u == 0x1680 || (0x2000
        <= u && u <= 0x200A) || u == 0x2028 || u == 0x2029 || u == 0x202F || u == 0x205F || u
        == 0x3000
}

/// `trim_start` drops the first `a` characters when they are white space and
/// the next one is not.
proof fn lemma_trim_start(s: Seq<char>, a: int)
    requires
        0 <= a <= s.len(),
        forall|i: int| 0 <= i < a ==> is_whitespace(#[trigger] s[i]),
        a < s.len() ==> !is_whitespace(s[a]),
    ensures
        trim_start(s) == s.skip(a),
    decreases a,
{
    if a == 0 {
        assert(s.skip(0) =~= s);
    } else {
        let rest = s.drop_first();
        assert forall|i: int| 0 <= i < a - 1 implies is_whitespace(#[trigger] rest[i]) by {
            assert(rest[i] == s[i + 1]);
        }
        lemma_trim_start(rest, a - 1);
        assert(rest.skip(a - 1) =~= s.skip(a));
    }
}

/// `trim_end` keeps the first `b` characters when all after them are white
/// space and the last of them is not.
proof fn lemma_trim_end(s: Seq<char>, b: int)
    requires
        0 <= b <= s.len(),
        forall|i: int| b <= i < s.len() ==> is_whitespace(#[trigger] s[i]),
        b > 0 ==> !is_whitespace(s[b - 1]),
    ensures
        trim_end(s) == s.take(b),
    decreases s.len() - b,
{
    if b == s.len() {
        assert(s.take(b) =~= s);
    } else {
        let rest = s.drop_last();
        lemma_trim_end(rest, b);
        assert(rest.take(b) =~= s.take(b));
    }
}

/// Where the trimmed text begins and ends in `chars`.
fn trim_bounds(chars: &Vec<char>) -> (bounds: (usize, usize))
    ensures
        bounds.0 <= bounds.1 <= chars@.len(),
        chars@.subrange(bounds.0 as int, bounds.1 as int) == trim(chars@),
{
    let len = chars.len();
    let mut a: usize = 0;
    while a < len && whitespace(chars[a])
        invariant
            a <= len,
            len == chars@.len(),
            forall|i: int| 0 <= i < a ==> is_whitespace(#[trigger] chars@[i]),
        decreases len - a,
    {
        a += 1;
    }
    let mut b: usize = len;
    while b > a && whitespace(chars[b - 1])
        invariant
            a <= b <= len,
            len == chars@.len(),
            forall|i: int| b <= i < len ==> is_whitespace(#[trigger] chars@[i]),
        decreases b,
    {
        b -= 1;
    }
    proof {
        lemma_trim_start(chars@, a as int);
        let rest = chars@.skip(a as int);
        assert forall|i: int| b - a <= i < rest.len() implies is_whitespace(
            #[trigger] rest[i],
        ) by {
            assert(rest[i] == chars@[i + a]);
        }
        lemma_trim_end(rest, b - a);
        assert(rest.take(b - a) =~= chars@.subrange(a as int, b as int));
    }
    (a, b)
}

/// `field_len` is `n` when the first `n` characters are no spaces and the
/// next one, if there is one, is a space.
proof fn lemma_field_len(s: Seq<char>, n: int)
    requires
        0 <= n <= s.len(),
        forall|i: int| 0 <= i < n ==> #[trigger] s[i] != ' ',
        n < s.len() ==> s[n] == ' ',
    ensures
        field_len(s) == n,
    decreases n,
{
    if n > 0 {
        let rest = s.drop_first();
        assert forall|i: int| 0 <= i < n - 1 implies #[trigger] rest[i] != ' ' by {
            assert(rest[i] == s[i + 1]);
        }
        lemma_field_len(rest, n - 1);
    }
}

/// The texts of the fields.
pub open spec fn texts(fields: Seq<Vec<char>>) -> Seq<Seq<char>> {
    Seq::new(fields.len(), |k: int| fields[k]@)
}

/// Cuts the characters from `a` up to and without `b` at every space.
fn split(chars: &Vec<char>, a: usize, b: usize) -> (out: Vec<Vec<char>>)
    requires
        a <= b <= chars@.len(),
    ensures
        texts(out@) == fields(chars@.subrange(a as int, b as int)),
        out@.len() >= 1,
{
    let mut out: Vec<Vec<char>> = Vec::new();
    let mut field: Vec<char> = Vec::new();
    let ghost mut start: int = a as int;
    for i in a..b
        invariant
            a <= start <= i,
            a <= b <= chars@.len(),
            field@ == chars@.subrange(start, i as int),
            forall|j: int| start <= j < i ==> #[trigger] chars@[j] != ' ',
            fields(chars@.subrange(a as int, b as int)) == texts(out@) + fields(
                chars@.subrange(start, b as int),
            ),
    {
        let c = chars[i];
        if c == ' ' {
            proof {
                let rest = chars@.subrange(start, b as int);
                let n = i - start;
                assert forall|j: int| 0 <= j < n implies #[trigger] rest[j] != ' ' by {
                    assert(rest[j] == chars@[j + start]);
                }
                lemma_field_len(rest, n);
                assert(rest.take(n) =~= field@);
                assert(rest.skip(n + 1) =~= chars@.subrange(i + 1, b as int));
                assert(texts(out@.push(field)) =~= texts(out@) + seq![field@]);
                assert(texts(out@) + (seq![field@] + fields(rest.skip(n + 1))) =~= (texts(out@)
                    + seq![field@]) + fields(rest.skip(n + 1)));
                start = i + 1;
            }
            out.push(field);
            field = Vec::new();
            assert(field@ =~= chars@.subrange(start, i + 1));
        } else {
            field.push(c);
            assert(field@ =~= chars@.subrange(start, i + 1));
        }
    }
    proof {
        let rest = chars@.subrange(start, b as int);
        assert forall|j: int| 0 <= j < rest.len() implies #[trigger] rest[j] != ' ' by {
            assert(rest[j] == chars@[j + start]);
        }
        lemma_field_len(rest, rest.len() as int);
        assert(texts(out@.push(field)) =~= texts(out@) + seq![field@]);
    }
    out.push(field);
    out
}

/// The digits written so far never write more than the whole does.
proof fn lemma_decimal_grows(s: Seq<char>, n: int)
    requires
        0 <= n <= s.len(),
    ensures
        0 <= decimal(s.take(n)) <= decimal(s),
    decreases s.len() - n,
{
    lemma_decimal_nonnegative(s.take(n));
    if n == s.len() {
        assert(s.take(n) =~= s);
    } else {
        lemma_decimal_grows(s.drop_last(), n);
        assert(s.drop_last().take(n) =~= s.take(n));
    }
}

/// Digits never write a negative number.
proof fn lemma_decimal_nonnegative(s: Seq<char>)
    ensures
        0 <= decimal(s),
    decreases s.len(),
{
    if s.len() > 0 {
        lemma_decimal_nonnegative(s.drop_last());
    }
}

/// Reads the characters of `token` from `from` on as a number of at most `max`.
fn read_magnitude(token: &Vec<char>, from: usize, max: u64) -> (value: Option<u64>)
    requires
        from <= token@.len(),
    ensures
        magnitude(token@.skip(from as int), max as int) == match value {
            Some(v) => Some(v as int),
            None => None::<int>,
        },
{
    let len = token.len();
    let ghost digits = token@.skip(from as int);
    if from == len {
        return None;
    }
    let mut acc: u64 = 0;
    for i in from..len
        invariant
            from < len,
            len == token@.len(),
            digits == token@.skip(from as int),
            all_digits(digits.take(i - from)),
            acc == decimal(digits.take(i - from)),
            acc <= max,
    {
        let c = token[i];
        assert(c == digits[i - from]);
        if !('0' <= c && c <= '9') {
            assert(!is_digit(digits[i - from]));
            return None;
        }
        let d: u64 = (c as u32 - '0' as u32) as u64;
        assert(digits.take(i - from + 1).drop_last() =~= digits.take(i - from));
        assert(digits.take(i - from + 1).last() == c);
        if d > max || acc > (max - d) / 10 {
            proof {
                lemma_decimal_grows(digits, i - from + 1);
            }
            return None;
        }
        acc = acc * 10 + d;
    }
    assert(digits.take(len - from) =~= digits);
    Some(acc)
}

/// Reads `token` as a number without a sign or after `+`, of at most `max`.
fn read_unsigned(token: &Vec<char>, max: u64) -> (value: Option<u64>)
    ensures
        unsigned(token@, max as int) == match value {
            Some(v) => Some(v as int),
            None => None::<int>,
        },
{
    if token.len() > 0 && token[0] == '+' {
        read_magnitude(token, 1, max)
    } else {
        assert(token@.skip(0) =~= token@);
        read_magnitude(token, 0, max)
    }
}

/// Reads `token` as a time.
fn read_time(token: &Vec<char>) -> (value: Option<u32>)
    ensures
        value == time_of(token@),
{
    match read_unsigned(token, u32::MAX as u64) {
        Some(v) => Some(v as u32),
        None => None,
    }
}

/// Reads `token` as a material, a coordinate or a size.
fn read_index(token: &Vec<char>) -> (value: Option<usize>)
    ensures
        value == index_of(token@),
{
    match read_unsigned(token, usize::MAX as u64) {
        Some(v) => Some(v as usize),
        None => None,
    }
}

/// Reads `token` as a temperature.
fn read_celsius(token: &Vec<char>) -> (value: Option<i16>)
    ensures
        value == celsius_of(token@),
{
    if token.len() > 0 && token[0] == '-' {
        match read_magnitude(token, 1, 32768) {
            Some(m) => {
                let v: i32 = -(m as i32);
                Some(v as i16)
            },
            None => None,
        }
    } else {
        match read_unsigned(token, 32767) {
            Some(v) => Some(v as i16),
            None => None,
        }
    }
}

/// Whether `token` is the word `word`.
fn is_word(token: &Vec<char>, word: &str) -> (same: bool)
    ensures
        same == (token@ == word@),
{
    let n = word.unicode_len();
    if token.len() != n {
        return false;
    }
    for i in 0..n
        invariant
            n == word@.len(),
            n == token@.len(),
            forall|j: int| 0 <= j < i ==> token@[j] == word@[j],
    {
        if token[i] != word.get_char(i) {
            return false;
        }
    }
    assert(token@ =~= word@);
    true
}

/// Reads the optional size of a `spawn` or `temp` line.
fn read_size(fields: &Vec<Vec<char>>) -> (size: Option<Option<usize>>)
    ensures
        size == size_of(texts(fields@)),
{
    if fields.len() < 5 {
        Some(None)
    } else {
        match read_index(&fields[4]) {
            Some(size) => Some(Some(size)),
            None => None,
        }
    }
}

/// Reads the fields of a `pass` line.
fn read_pass(fields: &Vec<Vec<char>>) -> (request: Result<Request, Refusal>)
    ensures
        request == pass_of(texts(fields@)),
{
    if fields.len() < 2 {
        return Err(Refusal::MissingArguments);
    }
    match read_time(&fields[1]) {
        Some(time) => Ok(Request::Pass(time)),
        None => Err(Refusal::BadArguments),
    }
}

/// Reads the fields of a `spawn` line.
fn read_spawn(fields: &Vec<Vec<char>>) -> (request: Result<Request, Refusal>)
    ensures
        request == spawn_of(texts(fields@)),
{
    if fields.len() < 4 {
        return Err(Refusal::MissingArguments);
    }
    let material = read_index(&fields[1]);
    let x = read_index(&fields[2]);
    let y = read_index(&fields[3]);
    let size = read_size(fields);
    match (material, x, y, size) {
        (Some(material), Some(x), Some(y), Some(size)) => Ok(
            Request::Spawn { material, x, y, size },
        ),
        _ => Err(Refusal::BadArguments),
    }
}

/// Reads the fields of a `temp` line.
fn read_temp(fields: &Vec<Vec<char>>) -> (request: Result<Request, Refusal>)
    ensures
        request == temp_of(texts(fields@)),
{
    if fields.len() < 4 {
        return Err(Refusal::MissingArguments);
    }
    let celsius = read_celsius(&fields[1]);
    let x = read_index(&fields[2]);
    let y = read_index(&fields[3]);
    let size = read_size(fields);
    match (celsius, x, y, size) {
        (Some(celsius), Some(x), Some(y), Some(size)) => Ok(
            Request::Temp { celsius, x, y, size },
        ),
        _ => Err(Refusal::BadArguments),
    }
}

/// Reads a line of the console. White space at either end is dropped, the
/// rest is cut at every space, and the first piece names the command.
pub fn parse_line(line: &str) -> (request: Result<Request, Refusal>)
    ensures
        request == parse(line@),
{
    let chars = chars_of(line);
    let (a, b) = trim_bounds(&chars);
    let fields = split(&chars, a, b);
    let name = &fields[0];
    if is_word(name, "exit") || is_word(name, "quit") {
        Ok(Request::Exit)
    } else if is_word(name, "pass") {
        read_pass(&fields)
    } else if is_word(name, "spawn") {
        read_spawn(&fields)
    } else if is_word(name, "temp") {
        read_temp(&fields)
    } else {
        Err(Refusal::UnknownCommand)
    }
}

impl Refusal {
    /// The text that tells the operator of the refusal.
    pub open spec fn spec_message(self) -> Seq<char> {
        match self {
            Refusal::MissingArguments => "Not enough arguments given."@,
            Refusal::BadArguments => "Given arguments do not fit the criteria."@,
            Refusal::UnknownCommand => "Command not recognized."@,
        }
    }

    /// The text that tells the operator of the refusal.
    pub fn message(&self) -> (text: &'static str)
        ensures
            text@ == self.spec_message(),
    {
        match self {
            Refusal::MissingArguments => "Not enough arguments given.",
            Refusal::BadArguments => "Given arguments do not fit the criteria.",
            Refusal::UnknownCommand => "Command not recognized.",
        }
    }
}

/// Why the program's arguments give no window size.
#[derive(Clone, Copy, Debug, PartialEq, Eq, Structural)]
pub enum StartupError {
    /// There are fewer than two arguments after the program's name.
    MissingArguments,
    /// The first argument is no width.
    BadWidth,
    /// The second argument is no height.
    BadHeight,
}

/// The width and height that the program's arguments give: the first and
/// second after the program's name.
pub open spec fn window_size_of(args: Seq<Seq<char>>) -> Result<(u32, u32), StartupError> {
    if args.len() < 3 {
        Err(StartupError::MissingArguments)
    } else {
        match time_of(args[1]) {
            None => Err(StartupError::BadWidth),
            Some(width) => match time_of(args[2]) {
                None => Err(StartupError::BadHeight),
                Some(height) => Ok((width, height)),
            },
        }
    }
}

/// The texts of the arguments.
pub open spec fn arguments(args: Seq<String>) -> Seq<Seq<char>> {
    Seq::new(args.len(), |k: int| args[k]@)
}

/// Reads the window's width and height from the program's arguments, the
/// program's name being the first of them.
pub fn window_size(args: &Vec<String>) -> (size: Result<(u32, u32), StartupError>)
    ensures
        size == window_size_of(arguments(args@)),
{
    if args.len() < 3 {
        return Err(StartupError::MissingArguments);
    }
    let width = read_time(&chars_of(args[1].as_str()));
    let height = read_time(&chars_of(args[2].as_str()));
    match width {
        None => Err(StartupError::BadWidth),
        Some(width) => match height {
            None => Err(StartupError::BadHeight),
            Some(height) => Ok((width, height)),
        },
    }
}

impl StartupError {
    /// The text that tells the operator of the error.
    pub open spec fn spec_message(self) -> Seq<char> {
        match self {
            StartupError::MissingArguments => "Not enough arguments given."@,
            StartupError::BadWidth => "Could not parse width."@,
            StartupError::BadHeight => "Could not parse height."@,
        }
    }

    /// The text that tells the operator of the error.
    pub fn message(&self) -> (text: &'static str)
        ensures
            text@ == self.spec_message(),
    {
        match self {
            StartupError::MissingArguments => "Not enough arguments given.",
            StartupError::BadWidth => "Could not parse width.",
            StartupError::BadHeight => "Could not parse height.",
        }
    }
}

} // verus!
