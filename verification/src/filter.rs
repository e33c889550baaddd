//! Level filters: which directives a log sink filters by.

use tracing_subscriber::EnvFilter;
use vstd::prelude::*;
use vstd::string::*;
use vstd::utf8::*;

verus! {

/// The directives in `directives` are all valid, as `EnvFilter` parses them.
pub uninterp spec fn valid_directives(directives: Seq<char>) -> bool;

/// Unicode's `White_Space` characters.
pub open spec fn is_white(c: char) -> bool {
    let n = c as u32;
    ||| 0x9 <= n <= 0xd
    ||| n == 0x20
    ||| n == 0x85
    ||| n == 0xa0
    ||| n == 0x1680
    ||| 0x2000 <= n <= 0x200a
    ||| n == 0x2028
    ||| n == 0x2029
    ||| n == 0x202f
    ||| n == 0x205f
    ||| n == 0x3000
}

/// `directives` from `start` up to `end` is one of its comma-separated parts.
pub open spec fn is_part(directives: Seq<char>, start: int, end: int) -> bool {
    &&& 0 <= start <= end <= directives.len()
    &&& start == 0 || directives[start - 1] == ','
    &&& end == directives.len() || directives[end] == ','
    &&& forall|k: int| start <= k < end ==> directives[k] != ','
}

/// How many bytes `c` takes.
pub open spec fn width(c: char) -> int {
    let n = c as u32;
    if n < 0x80 {
        1
    } else if n < 0x800 {
        2
    } else if n < 0x10000 {
        3
    } else {
        4
    }
}

/// The byte position of the character at `at` in `part`.
pub open spec fn byte_at(part: Seq<char>, at: int) -> int
    decreases at,
{
    if at <= 0 {
        0
    } else {
        byte_at(part, at - 1) + width(part[at - 1])
    }
}

/// The first position from `at` on that does not hold white space.
pub open spec fn past_white(part: Seq<char>, at: int) -> int
    decreases part.len() - at,
{
    if 0 <= at < part.len() && is_white(part[at]) {
        past_white(part, at + 1)
    } else {
        at
    }
}

/// The first position from `at` on that holds `a` or `b`; past the end, if none does.
pub open spec fn find(part: Seq<char>, at: int, a: char, b: char) -> int
    decreases part.len() - at,
{
    if 0 <= at < part.len() && part[at] != a && part[at] != b {
        find(part, at + 1, a, b)
    } else {
        at
    }
}

/// No character of `part` goes across the byte position `byte`.
pub open spec fn on_boundary(part: Seq<char>, byte: int) -> bool {
    exists|at: int| 0 <= at <= part.len() && #[trigger] byte_at(part, at) == byte
}

/// `part` can be sliced in front of its character at `at`. The position is counted in the text
/// without leading white space, and the slice is taken of the text with it.
pub open spec fn slices_at(part: Seq<char>, at: int) -> bool {
    on_boundary(part, byte_at(part, at) - byte_at(part, past_white(part, 0)))
}

/// `part` can be sliced behind the one-byte character at `at`, the position counted in the same
/// way.
pub open spec fn slices_after(part: Seq<char>, at: int) -> bool {
    on_boundary(part, byte_at(part, at) + 1 - byte_at(part, past_white(part, 0)))
}

/// `part` can be sliced in front of the level, if one follows a `]` at `at`.
pub open spec fn slices_level(part: Seq<char>, at: int) -> bool {
    at + 1 < part.len() && part[at] == ']' && part[at + 1] == '=' ==> slices_after(part, at + 1)
}

/// `part` can be sliced where its target, its span, its field and its level start and end: a
/// target up to the first `=` or `[`, a span up to the next `]` or `{`, a field up to the next `}`.
pub open spec fn slices(part: Seq<char>) -> bool {
    let first = find(part, past_white(part, 0), '=', '[');
    let end = find(part, first + 1, ']', '{');
    let close = find(part, end + 1, '}', '}');
    first < part.len() ==> {
        &&& slices_at(part, first)
        &&& slices_after(part, first)
        &&& part[first] == '[' && end < part.len() ==> {
            &&& slices_at(part, end)
            &&& slices_level(part, end)
            &&& part[end] == '{' ==> {
                &&& slices_after(part, end)
                &&& close < part.len() ==> slices_at(part, close) && slices_level(part, close + 1)
            }
        }
    }
}

/// Every part of `directives` can be sliced where `EnvFilter` slices it. It takes the positions
/// from the part without its leading white space and slices the part with it, so a slice can fall
/// inside a character outside ASCII, where it panics. No text that it accepts is left out.
pub open spec fn parses_safely(directives: Seq<char>) -> bool {
    forall|start: int, end: int| #[trigger]
        is_part(directives, start, end) ==> slices(directives.subrange(start, end))
}

/// `EnvFilter::try_new`: whether it accepts the directives, which depends on their text alone. It
/// accepts the empty text.
#[verifier::external_body]
fn directives_parse(directives: &str) -> (valid: bool)
    requires
        parses_safely(directives@),
    ensures
        valid == valid_directives(directives@),
        directives@.len() == 0 ==> valid,
{
    EnvFilter::try_new(directives).is_ok()
}

/// The directives that a sink filters by: those of `RUST_LOG` where it is set and valid, else the
/// sink's level, else `info`.
pub open spec fn chosen_directives(
    rust_log: Option<Seq<char>>,
    level: Seq<char>,
    rust_log_valid: bool,
    level_valid: bool,
) -> Seq<char> {
    if rust_log is Some && rust_log_valid {
        rust_log->0
    } else if level_valid {
        level
    } else {
        "info"@
    }
}

/// Pick the directives, given which of the two texts are valid.
pub fn choose_directives(
    rust_log: Option<&str>,
    level: &str,
    rust_log_valid: bool,
    level_valid: bool,
) -> (directives: String)
    ensures
        directives@ == chosen_directives(
            text_of(rust_log),
            level@,
            rust_log_valid,
            level_valid,
        ),
{
    match rust_log {
        Some(text) if rust_log_valid => text.to_owned(),
        _ => {
            if level_valid {
                level.to_owned()
            } else {
                "info".to_owned()
            }
        },
    }
}

/// The text of an optional string.
pub open spec fn text_of(text: Option<&str>) -> Option<Seq<char>> {
    match text {
        Some(text) => Some(text@),
        None => None,
    }
}

/// `directives` can be parsed, and all of them are valid.
pub open spec fn parses(directives: Seq<char>) -> bool {
    parses_safely(directives) && valid_directives(directives)
}

/// `RUST_LOG` is set to valid directives, and so overrides every sink's level.
pub open spec fn overrides(rust_log: Option<Seq<char>>) -> bool {
    rust_log is Some && parses(rust_log->0)
}

/// The directives that a sink of level `level` filters by, where `rust_log` is the value of
/// `RUST_LOG` if it is set. A valid `RUST_LOG` overrides every sink's level, also when it is
/// empty. A text that cannot be parsed is not valid.
pub open spec fn directives_for(rust_log: Option<Seq<char>>, level: Seq<char>) -> Seq<char> {
    chosen_directives(rust_log, level, overrides(rust_log), parses(level))
}

/// Resolve a sink's level filter: a valid `RUST_LOG` first, then `level`, then `info`.
pub fn env_filter(rust_log: Option<&str>, level: &str) -> (directives: String)
    ensures
        directives@ == directives_for(text_of(rust_log), level@),
        rust_log matches Some(text) ==> (text@.len() == 0 ==> directives@ == text@),
{
    let rust_log_valid = match rust_log {
        Some(text) => can_parse(text) && directives_parse(text),
        None => false,
    };
    proof {
        if rust_log is Some && rust_log->0@.len() == 0 {
            law_empty_text_parses_safely(rust_log->0@);
        }
    }
    let level_valid = !rust_log_valid && can_parse(level) && directives_parse(level);
    choose_directives(rust_log, level, rust_log_valid, level_valid)
}

/// Whether `directives` can be handed to the filter parser.
pub fn can_parse(directives: &str) -> (safe: bool)
    ensures
        safe == parses_safely(directives@),
{
    let len: usize = directives.unicode_len();
    let mut part: Vec<char> = Vec::new();
    let ghost mut start: int = 0;
    let mut at: usize = 0;
    while at < len
        invariant
            len == directives@.len(),
            at <= len,
            0 <= start <= at,
            start == 0 || directives@[start - 1] == ',',
            part@ == directives@.subrange(start, at as int),
            forall|k: int| start <= k < at ==> directives@[k] != ',',
            forall|s: int, e: int|
                e < start && #[trigger] is_part(directives@, s, e) ==> slices(
                    directives@.subrange(s, e),
                ),
        decreases len - at,
    {
        let c = directives.get_char(at);
        if c == ',' {
            assert(is_part(directives@, start, at as int));
            if !can_slice(&part) {
                return false;
            }
            assert forall|s: int, e: int| e <= at && #[trigger] is_part(
                directives@,
                s,
                e,
            ) implies slices(directives@.subrange(s, e)) by {
                lemma_parts_are_apart(directives@, start, at as int, s, e);
            }
            part = Vec::new();
            proof {
                start = at + 1;
            }
            assert(part@ =~= directives@.subrange(start, at + 1));
        } else {
            part.push(c);
            assert(part@ =~= directives@.subrange(start, at + 1));
        }
        at += 1;
    }
    assert(is_part(directives@, start, len as int));
    let safe = can_slice(&part);
    proof {
        if safe {
            assert forall|s: int, e: int| #[trigger] is_part(directives@, s, e) implies slices(
                directives@.subrange(s, e),
            ) by {
                lemma_parts_are_apart(directives@, start, len as int, s, e);
            }
        }
    }
    safe
}

/// Two parts of one text are the same part, or one ends before the other starts.
proof fn lemma_parts_are_apart(directives: Seq<char>, start: int, end: int, s: int, e: int)
    requires
        is_part(directives, start, end),
        is_part(directives, s, e),
    ensures
        s == start && e == end || e < start || end < s,
{
    if s < start && e >= start {
        assert(directives[start - 1] == ',');
    } else if start < s && end >= s {
        assert(directives[s - 1] == ',');
    }
}

/// How many bytes `c` takes.
fn char_width(c: char) -> (bytes: u128)
    ensures
        bytes == width(c),
{
    let n: u32 = c as u32;
    if n < 0x80 {
        1
    } else if n < 0x800 {
        2
    } else if n < 0x10000 {
        3
    } else {
        4
    }
}

/// The byte positions of all characters of `part`, and of its end.
fn boundaries(part: &Vec<char>) -> (bytes: Vec<u128>)
    ensures
        bytes@.len() == part@.len() + 1,
        forall|i: int| 0 <= i <= part@.len() ==> #[trigger] bytes@[i] == byte_at(part@, i),
{
    let mut bytes: Vec<u128> = Vec::new();
    bytes.push(0);
    let mut i: usize = 0;
    while i < part.len()
        invariant
            i <= part@.len(),
            bytes@.len() == i + 1,
            forall|k: int| 0 <= k <= i ==> #[trigger] bytes@[k] == byte_at(part@, k),
            bytes@[i as int] <= 4 * i,
        decreases part@.len() - i,
    {
        let byte: u128 = bytes[i];
        bytes.push(byte + char_width(part[i]));
        i += 1;
    }
    bytes
}

/// Whether `byte` is one of `bytes`.
fn holds(bytes: &Vec<u128>, byte: u128) -> (found: bool)
    ensures
        found == exists|i: int| 0 <= i < bytes@.len() && #[trigger] bytes@[i] == byte,
{
    let mut i: usize = 0;
    while i < bytes.len()
        invariant
            i <= bytes@.len(),
            forall|k: int| 0 <= k < i ==> #[trigger] bytes@[k] != byte,
        decreases bytes@.len() - i,
    {
        if bytes[i] == byte {
            return true;
        }
        i += 1;
    }
    false
}

/// The first position that does not hold white space.
fn after_white(part: &Vec<char>) -> (at: usize)
    ensures
        at == past_white(part@, 0),
        at <= part@.len(),
{
    let mut at: usize = 0;
    while at < part.len() && white(part[at])
        invariant
            at <= part@.len(),
            past_white(part@, at as int) == past_white(part@, 0),
        decreases part@.len() - at,
    {
        at += 1;
    }
    at
}

/// The first position from `from` on that holds `a` or `b`; past the end, if none does.
fn position(part: &Vec<char>, from: usize, a: char, b: char) -> (at: usize)
    requires
        from <= part@.len(),
    ensures
        at == find(part@, from as int, a, b),
        from <= at <= part@.len(),
        at < part@.len() ==> part@[at as int] == a || part@[at as int] == b,
{
    let mut at: usize = from;
    while at < part.len() && part[at] != a && part[at] != b
        invariant
            from <= at <= part@.len(),
            find(part@, at as int, a, b) == find(part@, from as int, a, b),
        decreases part@.len() - at,
    {
        at += 1;
    }
    at
}

/// Whether `part` can be sliced wherever it is sliced.
fn can_slice(part: &Vec<char>) -> (safe: bool)
    ensures
        safe == slices(part@),
{
    let bytes = boundaries(part);
    let white: usize = after_white(part);
    let first: usize = position(part, white, '=', '[');
    if first == part.len() {
        return true;
    }
    if !can_slice_at(part, &bytes, white, first) || !can_slice_after(part, &bytes, white, first) {
        return false;
    }
    if part[first] != '[' {
        return true;
    }
    let end: usize = position(part, first + 1, ']', '{');
    if end == part.len() {
        return true;
    }
    if !can_slice_at(part, &bytes, white, end) {
        return false;
    }
    if part[end] == ']' {
        return can_slice_level(part, &bytes, white, end);
    }
    if !can_slice_after(part, &bytes, white, end) {
        return false;
    }
    let close: usize = position(part, end + 1, '}', '}');
    if close == part.len() {
        return true;
    }
    can_slice_at(part, &bytes, white, close) && can_slice_level(part, &bytes, white, close + 1)
}

/// Whether `part` can be sliced in front of its character at `at`.
fn can_slice_at(part: &Vec<char>, bytes: &Vec<u128>, white: usize, at: usize) -> (safe: bool)
    requires
        byte_positions(part@, bytes@, white as int, at as int),
    ensures
        safe == slices_at(part@, at as int),
{
    proof {
        lemma_byte_at_ascends(part@, white as int, at as int);
    }
    let byte: u128 = bytes[at] - bytes[white];
    let safe = holds(bytes, byte);
    proof {
        lemma_boundary(part@, bytes@, byte as int);
    }
    safe
}

/// Whether `part` can be sliced behind the one-byte character at `at`.
fn can_slice_after(part: &Vec<char>, bytes: &Vec<u128>, white: usize, at: usize) -> (safe: bool)
    requires
        byte_positions(part@, bytes@, white as int, at as int),
    ensures
        safe == slices_after(part@, at as int),
{
    proof {
        lemma_byte_at_ascends(part@, white as int, at as int);
        lemma_byte_at_bound(part@, at as int);
    }
    let byte: u128 = bytes[at] - bytes[white] + 1;
    let safe = holds(bytes, byte);
    proof {
        lemma_boundary(part@, bytes@, byte as int);
    }
    safe
}

/// Whether `part` can be sliced in front of the level, if one follows a `]` at `at`.
fn can_slice_level(part: &Vec<char>, bytes: &Vec<u128>, white: usize, at: usize) -> (safe: bool)
    requires
        at <= part@.len(),
        byte_positions(part@, bytes@, white as int, at as int),
    ensures
        safe == slices_level(part@, at as int),
{
    if at < part.len() && part[at] == ']' && at + 1 < part.len() && part[at + 1] == '=' {
        can_slice_after(part, bytes, white, at + 1)
    } else {
        true
    }
}

/// `bytes` are the byte positions in `part`, whose leading white space ends at `white`, at or
/// before `at`.
spec fn byte_positions(part: Seq<char>, bytes: Seq<u128>, white: int, at: int) -> bool {
    &&& bytes.len() == part.len() + 1
    &&& forall|i: int| 0 <= i <= part.len() ==> #[trigger] bytes[i] == byte_at(part, i)
    &&& white == past_white(part, 0)
    &&& 0 <= white <= at <= part.len() <= usize::MAX
}

proof fn lemma_boundary(part: Seq<char>, bytes: Seq<u128>, byte: int)
    requires
        bytes.len() == part.len() + 1,
        forall|i: int| 0 <= i <= part.len() ==> #[trigger] bytes[i] == byte_at(part, i),
    ensures
        on_boundary(part, byte) <==> exists|i: int|
            0 <= i < bytes.len() && #[trigger] bytes[i] == byte,
{
    if on_boundary(part, byte) {
        let at = choose|at: int| 0 <= at <= part.len() && #[trigger] byte_at(part, at) == byte;
        assert(bytes[at] == byte);
    }
    if exists|i: int| 0 <= i < bytes.len() && #[trigger] bytes[i] == byte {
        let i = choose|i: int| 0 <= i < bytes.len() && #[trigger] bytes[i] == byte;
        assert(byte_at(part, i) == byte);
    }
}

proof fn lemma_byte_at_ascends(part: Seq<char>, low: int, high: int)
    requires
        0 <= low <= high,
    ensures
        byte_at(part, low) <= byte_at(part, high),
    decreases high,
{
    if low < high {
        lemma_byte_at_ascends(part, low, high - 1);
    }
}

proof fn lemma_byte_at_bound(part: Seq<char>, at: int)
    requires
        0 <= at,
    ensures
        byte_at(part, at) <= 4 * at,
    decreases at,
{
    if at > 0 {
        lemma_byte_at_bound(part, at - 1);
    }
}

/// Whether `c` is white space.
fn white(c: char) -> (is: bool)
    ensures
        is == is_white(c),
{
    let n: u32 = c as u32;
    0x9 <= n && n <= 0xd || n == 0x20 || n == 0x85 || n == 0xa0 || n == 0x1680 || 0x2000 <= n && n
        <= 0x200a || n == 0x2028 || n == 0x2029 || n == 0x202f || n == 0x205f || n == 0x3000
}

/// The empty text can be parsed.
pub proof fn law_empty_text_parses_safely(text: Seq<char>)
    requires
        text.len() == 0,
    ensures
        parses_safely(text),
{
}

/// Only leading white space stands in the way of parsing: a text of which no part starts with
/// white space can always be parsed.
pub proof fn law_text_without_leading_white_parses_safely(text: Seq<char>)
    requires
        forall|start: int, end: int| #[trigger]
            is_part(text, start, end) && start < end ==> !is_white(text[start]),
    ensures
        parses_safely(text),
{
    assert forall|start: int, end: int| #[trigger] is_part(text, start, end) implies slices(
        text.subrange(start, end),
    ) by {
        let part = text.subrange(start, end);
        assert(past_white(part, 0) == 0);
        assert forall|at: int| 0 <= at < part.len() implies #[trigger] slices_at(part, at) by {
            assert(byte_at(part, at) == byte_at(part, at) - byte_at(part, 0));
        }
        assert forall|at: int|
            0 <= at < part.len() && (part[at] as u32) < 0x80 implies #[trigger] slices_after(
            part,
            at,
        ) by {
            assert(byte_at(part, at + 1) == byte_at(part, at) + 1);
        }
        let first = find(part, 0, '=', '[');
        lemma_find(part, 0, '=', '[');
        if first < part.len() {
            let end = find(part, first + 1, ']', '{');
            lemma_find(part, first + 1, ']', '{');
            if end < part.len() {
                lemma_find(part, end + 1, '}', '}');
            }
        }
    }
}

proof fn lemma_find(part: Seq<char>, at: int, a: char, b: char)
    requires
        0 <= at <= part.len(),
    ensures
        at <= find(part, at, a, b) <= part.len(),
        find(part, at, a, b) < part.len() ==> part[find(part, at, a, b)] == a || part[find(
            part,
            at,
            a,
            b,
        )] == b,
    decreases part.len() - at,
{
    if at < part.len() && part[at] != a && part[at] != b {
        lemma_find(part, at + 1, a, b);
    }
}

/// A valid `RUST_LOG` overrides every sink's level alike.
pub proof fn law_rust_log_overrides_every_level(text: Seq<char>, level: Seq<char>)
    requires
        parses(text),
    ensures
        directives_for(Some(text), level) == text,
{
}

/// While `RUST_LOG` is unset or invalid, a sink filters by its own level, or by `info` where that
/// is invalid.
pub proof fn law_level_applies_without_rust_log(rust_log: Option<Seq<char>>, level: Seq<char>)
    requires
        rust_log matches Some(text) ==> !parses(text),
    ensures
        parses(level) ==> directives_for(rust_log, level) == level,
        !parses(level) ==> directives_for(rust_log, level) == "info"@,
{
}

/// The precedence, in full: `RUST_LOG` where it is set, can be parsed and is valid; else the level
/// where it can be parsed and is valid; else `info`.
pub proof fn law_precedence_is_total(rust_log: Option<Seq<char>>, level: Seq<char>)
    ensures
        rust_log is Some && parses_safely(rust_log->0) && valid_directives(rust_log->0)
            ==> directives_for(rust_log, level) == rust_log->0,
        !(rust_log is Some && parses_safely(rust_log->0) && valid_directives(rust_log->0))
            && parses_safely(level) && valid_directives(level) ==> directives_for(rust_log, level)
            == level,
        !(rust_log is Some && parses_safely(rust_log->0) && valid_directives(rust_log->0)) && !(
        parses_safely(level) && valid_directives(level)) ==> directives_for(rust_log, level)
            == "info"@,
{
}

/// The choice follows what is said to be valid: `RUST_LOG` first, then the level, then `info`.
pub proof fn law_choice_follows_validity(
    rust_log: Option<Seq<char>>,
    level: Seq<char>,
    rust_log_valid: bool,
    level_valid: bool,
)
    ensures
        rust_log is Some && rust_log_valid ==> chosen_directives(
            rust_log,
            level,
            rust_log_valid,
            level_valid,
        ) == rust_log->0,
        (rust_log is None || !rust_log_valid) && level_valid ==> chosen_directives(
            rust_log,
            level,
            rust_log_valid,
            level_valid,
        ) == level,
        (rust_log is None || !rust_log_valid) && !level_valid ==> chosen_directives(
            rust_log,
            level,
            rust_log_valid,
            level_valid,
        ) == "info"@,
{
}

/// A text is what its characters are, and an unset one is none.
pub proof fn law_text_is_kept(text: &str)
    ensures
        text_of(Some(text)) == Some(text@),
        text_of(None) is None,
{
}

/// White space is what Unicode calls so: no visible ASCII character is, and all of ASCII's blanks
/// are.
pub proof fn law_white_space_is_unicodes(c: char)
    ensures
        is_white(c) <==> (c == ' ' || c == '\t' || c == '\n' || c == '\r' || c as u32 == 0xb
            || c as u32 == 0xc || c as u32 == 0x85 || c as u32 == 0xa0 || c as u32 == 0x1680 || (
        0x2000 <= c as u32 && c as u32 <= 0x200a) || c as u32 == 0x2028 || c as u32 == 0x2029
            || c as u32 == 0x202f || c as u32 == 0x205f || c as u32 == 0x3000),
        'a' <= c <= 'z' || 'A' <= c <= 'Z' || '0' <= c <= '9' || c == '=' || c == ',' || c == '_'
            ==> !is_white(c),
{
}

/// A character takes one to four bytes, as UTF-8 encodes it.
pub proof fn law_width_is_utf8s(c: char)
    ensures
        width(c) == 1 <==> has_width_1_encoding(c as u32),
        width(c) == 2 <==> has_width_2_encoding(c as u32),
        width(c) == 3 <==> has_width_3_encoding(c as u32),
        width(c) == 4 <==> has_width_4_encoding(c as u32),
        1 <= width(c) <= 4,
{
}

proof fn lemma_past_white(part: Seq<char>, at: int)
    requires
        0 <= at <= part.len(),
    ensures
        at <= past_white(part, at) <= part.len(),
    decreases part.len() - at,
{
    if at < part.len() && is_white(part[at]) {
        lemma_past_white(part, at + 1);
    }
}

/// A text of ASCII characters can always be parsed.
pub proof fn law_ascii_text_parses_safely(text: Seq<char>)
    requires
        forall|i: int| 0 <= i < text.len() ==> (#[trigger] text[i] as u32) < 0x80,
    ensures
        parses_safely(text),
{
    assert forall|start: int, end: int| #[trigger] is_part(text, start, end) implies slices(
        text.subrange(start, end),
    ) by {
        let part = text.subrange(start, end);
        if !slices(part) {
            let (c, d, behind) = law_only_a_split_character_is_refused(part);
            assert(part[c] == text[start + c]);
            assert(byte_at(part, c + 1) == byte_at(part, c) + width(part[c]));
        }
    }
}

/// A text in which no target, span or level ends can always be parsed.
pub proof fn law_uncut_text_parses_safely(text: Seq<char>)
    requires
        forall|i: int| 0 <= i < text.len() ==> #[trigger] text[i] != '=' && text[i] != '[',
    ensures
        parses_safely(text),
{
    assert forall|start: int, end: int| #[trigger] is_part(text, start, end) implies slices(
        text.subrange(start, end),
    ) by {
        let part = text.subrange(start, end);
        lemma_past_white(part, 0);
        let first = find(part, past_white(part, 0), '=', '[');
        lemma_find(part, past_white(part, 0), '=', '[');
        if first < part.len() {
            assert(part[first] == text[start + first]);
        }
    }
}

/// A part is refused only where a slice would split a character: one of the part's delimiters, at
/// `d`, moved towards the front by the bytes of the leading white space, falls inside the character
/// at `c`, or, for the slice behind the delimiter, the byte after it does.
pub proof fn law_only_a_split_character_is_refused(part: Seq<char>) -> (split: (int, int, int))
    requires
        !slices(part),
    ensures
        ({
            let (c, d, behind) = split;
            let byte = byte_at(part, d) + behind - byte_at(part, past_white(part, 0));
            &&& 0 <= c < part.len()
            &&& past_white(part, 0) <= d < part.len()
            &&& behind == 0 || behind == 1
            &&& part[d] == '=' || part[d] == '[' || part[d] == ']' || part[d] == '{' || part[d]
                == '}'
            &&& byte_at(part, c) < byte < byte_at(part, c + 1)
            &&& is_white(part[0])
        }),
{
    let lead = past_white(part, 0);
    lemma_past_white(part, 0);
    let first = find(part, lead, '=', '[');
    lemma_find(part, lead, '=', '[');
    let end = find(part, first + 1, ']', '{');
    let close = find(part, end + 1, '}', '}');
    lemma_find(part, first + 1, ']', '{');
    if end < part.len() {
        lemma_find(part, end + 1, '}', '}');
    }
    let (d, behind): (int, int) = if !slices_at(part, first) {
        (first, 0)
    } else if !slices_after(part, first) {
        (first, 1)
    } else if !slices_at(part, end) {
        (end, 0)
    } else if !slices_level(part, end) {
        (end + 1, 1)
    } else if !slices_after(part, end) {
        (end, 1)
    } else if !slices_at(part, close) {
        (close, 0)
    } else {
        (close + 2, 1)
    };
    let byte = byte_at(part, d) + behind - byte_at(part, lead);
    lemma_byte_at_ascends(part, lead, d);
    lemma_byte_at_ascends(part, 0, lead);
    lemma_byte_at_ascends(part, d + 1, part.len() as int);
    assert(byte_at(part, d + 1) == byte_at(part, d) + width(part[d]));
    if !is_white(part[0]) {
        assert(lead == 0);
        assert(byte_at(part, d + behind) == byte);
        assert(on_boundary(part, byte));
    }
    let c = lemma_inside_a_character(part, byte, part.len() as int);
    (c, d, behind)
}

/// A byte position that is not on a boundary is inside a character.
proof fn lemma_inside_a_character(part: Seq<char>, byte: int, at: int) -> (c: int)
    requires
        0 <= at <= part.len(),
        0 <= byte <= byte_at(part, at),
        !on_boundary(part, byte),
    ensures
        0 <= c < part.len(),
        byte_at(part, c) < byte < byte_at(part, c + 1),
    decreases at,
{
    assert(byte_at(part, at) != byte);
    if at == 0 {
        assert(byte_at(part, 0) == byte);
        0
    } else if byte_at(part, at - 1) < byte {
        at - 1
    } else {
        lemma_inside_a_character(part, byte, at - 1)
    }
}

/// Commas divide a text into parts that are parsed one by one: a text without commas is one part,
/// and a part in front of a comma is parsed apart from what comes behind it.
pub proof fn law_parts_are_parsed_one_by_one(part: Seq<char>, rest: Seq<char>)
    requires
        forall|i: int| 0 <= i < part.len() ==> #[trigger] part[i] != ',',
    ensures
        parses_safely(part) <==> slices(part),
        parses_safely(part + seq![','] + rest) <==> slices(part) && parses_safely(rest),
{
    let len = part.len() as int;
    let text = part + seq![','] + rest;
    assert(part.subrange(0, len) =~= part);
    assert(is_part(part, 0, len));
    assert forall|s: int, e: int| #[trigger] is_part(part, s, e) implies s == 0 && e == len by {
        if s > 0 {
            assert(part[s - 1] != ',');
        }
        if e < len {
            assert(part[e] != ',');
        }
    }
    assert forall|k: int| 0 <= k < rest.len() implies #[trigger] rest[k] == text[len + 1 + k] by {}
    assert(text.subrange(0, len) =~= part);
    assert(text[len] == ',');
    assert forall|k: int| 0 <= k < len implies #[trigger] text[k] != ',' by {
        assert(part[k] != ',');
    }
    assert(is_part(text, 0, len));
    assert forall|s: int, e: int| #[trigger] is_part(rest, s, e) implies is_part(
        text,
        len + 1 + s,
        len + 1 + e,
    ) && text.subrange(len + 1 + s, len + 1 + e) == rest.subrange(s, e) by {
        assert forall|k: int| len + 1 + s <= k < len + 1 + e implies text[k] != ',' by {
            assert(rest[k - len - 1] != ',');
        }
        assert(text.subrange(len + 1 + s, len + 1 + e) =~= rest.subrange(s, e));
    }
    assert forall|s: int, e: int| #[trigger] is_part(text, s, e) implies s == 0 && e == len || (
    is_part(rest, s - len - 1, e - len - 1) && text.subrange(s, e) == rest.subrange(
        s - len - 1,
        e - len - 1,
    )) by {
        lemma_parts_are_apart(text, 0, len, s, e);
        if s > len {
            assert forall|k: int| s - len - 1 <= k < e - len - 1 implies rest[k] != ',' by {
                assert(text[len + 1 + k] != ',');
            }
            assert(text.subrange(s, e) =~= rest.subrange(s - len - 1, e - len - 1));
        }
    }
    if parses_safely(text) {
        assert forall|s: int, e: int| #[trigger] is_part(rest, s, e) implies slices(
            rest.subrange(s, e),
        ) by {
            assert(is_part(text, len + 1 + s, len + 1 + e));
        }
    }
}

} // verus!
