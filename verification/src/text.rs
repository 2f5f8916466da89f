//! Text building blocks shared by the palette, the HUD and the terminal view.
use vstd::prelude::*;
use vstd::std_specs::iter::IteratorSpec;

verus! {

/// `String::push` appends the given character to the end of the string.
pub assume_specification[ String::push ](text: &mut String, character: char)
    ensures
        final(text)@ == old(text)@.push(character),
;

/// Whether `needle` occurs in `hay` starting at position `i`.
pub open spec fn run_at(hay: Seq<char>, needle: Seq<char>, i: int) -> bool {
    &&& 0 <= i
    &&& i + needle.len() <= hay.len()
    &&& hay.subrange(i, i + needle.len()) == needle
}

/// Whether `needle` occurs as a contiguous run of characters in `hay`.
pub open spec fn contains_run(hay: Seq<char>, needle: Seq<char>) -> bool {
    exists|i: int| #[trigger] run_at(hay, needle, i)
}

/// Whether `text` begins with `prefix`.
pub open spec fn begins_with(text: Seq<char>, prefix: Seq<char>) -> bool {
    run_at(text, prefix, 0)
}

/// The decimal digit character of a value below ten.
pub open spec fn digit(value: nat) -> char {
    (48 + value) as char
}

/// The decimal notation of a natural number, without leading zeros.
pub open spec fn decimal(value: nat) -> Seq<char>
    decreases value,
{
    if value < 10 {
        seq![digit(value)]
    } else {
        decimal(value / 10).push(digit(value % 10))
    }
}

/// The decimal notation of an integer, with a minus sign when it is negative.
pub open spec fn signed_decimal(value: int) -> Seq<char> {
    if value < 0 {
        seq!['-'] + decimal((-value) as nat)
    } else {
        decimal(value as nat)
    }
}

/// `count` copies of one character.
pub open spec fn repeated(character: char, count: nat) -> Seq<char> {
    Seq::new(count, |i: int| character)
}

/// `text` right-aligned in a field of at least `width` characters.
pub open spec fn right_aligned(text: Seq<char>, width: nat) -> Seq<char> {
    if text.len() < width {
        repeated(' ', (width - text.len()) as nat) + text
    } else {
        text
    }
}

/// The ASCII upper-case form of a character; other characters are unchanged.
pub open spec fn ascii_upper(character: char) -> char {
    if 'a' <= character && character <= 'z' {
        (character as u8 - 32) as char
    } else {
        character
    }
}

/// The characters with Unicode's `White_Space` property.
pub open spec fn white_space(c: char) -> bool {
    let code = c as u32;
    ||| 0x9 <= code <= 0xd
    ||| code == 0x20
    ||| code == 0x85
    ||| code == 0xa0
    ||| code == 0x1680
    ||| 0x2000 <= code <= 0x200a
    ||| code == 0x2028
    ||| code == 0x2029
    ||| code == 0x202f
    ||| code == 0x205f
    ||| code == 0x3000
}

/// Whether every character of `text` is a decimal digit.
pub open spec fn all_digits(text: Seq<char>) -> bool {
    forall|i: int| 0 <= i < text.len() ==> '0' <= #[trigger] text[i] && text[i] <= '9'
}

/// The number that a sequence of decimal digits denotes.
pub open spec fn digits_value(text: Seq<char>) -> nat
    decreases text.len(),
{
    if text.len() == 0 {
        0
    } else {
        digits_value(text.drop_last()) * 10 + (text.last() as nat - 48) as nat
    }
}

/// The digits of an unsigned number as written on the command line: an
/// optional plus sign may precede them.
pub open spec fn unsigned_digits(text: Seq<char>) -> Seq<char> {
    if text.len() > 0 && text[0] == '+' {
        text.skip(1)
    } else {
        text
    }
}

/// The unsigned number that `text` denotes, if it is at least one decimal
/// digit, possibly after a plus sign, and no larger than `limit`.
pub open spec fn unsigned_value(text: Seq<char>, limit: nat) -> Option<nat> {
    let digits = unsigned_digits(text);
    if digits.len() > 0 && all_digits(digits) && digits_value(digits) <= limit {
        Some(digits_value(digits))
    } else {
        None
    }
}

/// Where a character first occurs at or after `from`; the length of the text
/// if it does not.
pub open spec fn first_of(text: Seq<char>, character: char, from: int) -> int
    decreases text.len() - from,
{
    if 0 <= from < text.len() && text[from] != character {
        first_of(text, character, from + 1)
    } else {
        from
    }
}

/// The lines of a text from position `from` on. A line ends before a line feed,
/// or before a carriage return and a line feed; the last line may lack its end.
pub open spec fn lines_from(text: Seq<char>, from: int) -> Seq<Seq<char>>
    decreases text.len() - from,
{
    if 0 <= from < text.len() {
        let end = first_of(text, '\n', from);
        if from <= end < text.len() {
            seq![without_return(text.subrange(from, end))] + lines_from(text, end + 1)
        } else {
            seq![text.skip(from)]
        }
    } else {
        Seq::empty()
    }
}

/// A line without the carriage return at its end.
pub open spec fn without_return(line: Seq<char>) -> Seq<char> {
    if line.len() > 0 && line.last() == '\r' {
        line.drop_last()
    } else {
        line
    }
}

/// The characters of a text as a vector.
pub fn chars_of(text: &str) -> (chars: Vec<char>)
    ensures
        chars@ == text@,
{
    let mut chars: Vec<char> = Vec::new();
    for c in iter: text.chars()
        invariant
            iter.seq() == text@,
            chars@ == text@.take(iter.index()),
    {
        chars.push(c);
    }
    chars
}

/// Whether two texts have the same characters.
pub fn same_text(left: &str, right: &str) -> (same: bool)
    ensures
        same == (left@ == right@),
{
    let mut left_chars = left.chars();
    let mut right_chars = right.chars();
    let ghost mut n: int = 0;
    loop
        invariant
            0 <= n <= left@.len(),
            n <= right@.len(),
            left_chars.obeys_prophetic_iter_laws(),
            right_chars.obeys_prophetic_iter_laws(),
            left_chars.remaining() == left@.skip(n),
            right_chars.remaining() == right@.skip(n),
            left@.take(n) == right@.take(n),
        decreases left@.len() - n,
    {
        let left_char = left_chars.next();
        let right_char = right_chars.next();
        match (left_char, right_char) {
            (None, None) => {
                assert(left@.take(n) == left@);
                assert(right@.take(n) == right@);
                return true;
            },
            (Some(a), Some(b)) => {
                assert(a == left@[n]);
                assert(b == right@[n]);
                if a != b {
                    return false;
                }
                proof {
                    assert(left@.take(n + 1) == left@.take(n).push(a));
                    assert(right@.take(n + 1) == right@.take(n).push(b));
                    n = n + 1;
                }
            },
            _ => {
                return false;
            },
        }
    }
}

/// Whether `needle` stands in `hay` at position `start`.
fn run_stands_at(hay: &Vec<char>, needle: &Vec<char>, start: usize) -> (found: bool)
    requires
        start + needle.len() <= hay.len(),
    ensures
        found == run_at(hay@, needle@, start as int),
{
    let mut j: usize = 0;
    while j < needle.len()
        invariant
            j <= needle.len(),
            start + needle.len() <= hay.len(),
            forall|k: int| 0 <= k < j ==> hay@[start + k] == needle@[k],
        decreases needle.len() - j,
    {
        if hay[start + j] != needle[j] {
            assert(hay@.subrange(start as int, start + needle.len())[j as int] != needle@[j as int]);
            return false;
        }
        j = j + 1;
    }
    assert(hay@.subrange(start as int, start + needle.len()) =~= needle@);
    true
}

/// Whether `needle` occurs anywhere in `hay`.
pub fn contains_text(hay: &Vec<char>, needle: &str) -> (found: bool)
    ensures
        found == contains_run(hay@, needle@),
{
    let needle_chars = chars_of(needle);
    if needle_chars.len() > hay.len() {
        return false;
    }
    let last: usize = hay.len() - needle_chars.len();
    let mut start: usize = 0;
    loop
        invariant
            needle_chars@ == needle@,
            last == hay.len() - needle_chars.len(),
            start <= last,
            forall|i: int| 0 <= i < start ==> !#[trigger] run_at(hay@, needle@, i),
        decreases last - start,
    {
        if run_stands_at(hay, &needle_chars, start) {
            return true;
        }
        if start == last {
            return false;
        }
        start = start + 1;
    }
}

/// The text after `prefix`, if `text` begins with it.
pub fn text_after<'a>(text: &'a str, prefix: &str) -> (rest: Option<&'a str>)
    ensures
        match rest {
            Some(rest) => begins_with(text@, prefix@) && rest@ == text@.skip(prefix@.len() as int),
            None => !begins_with(text@, prefix@),
        },
{
    let chars = chars_of(text);
    let prefix_chars = chars_of(prefix);
    if prefix_chars.len() <= chars.len() && run_stands_at(&chars, &prefix_chars, 0) {
        Some(text.substring_char(prefix_chars.len(), chars.len()))
    } else {
        None
    }
}

/// The ASCII upper-case form of a character.
pub fn to_ascii_upper(character: char) -> (upper: char)
    ensures
        upper == ascii_upper(character),
{
    if 'a' <= character && character <= 'z' {
        (character as u8 - 32) as char
    } else {
        character
    }
}

/// Whether a character has Unicode's `White_Space` property.
pub fn is_white_space(c: char) -> (white: bool)
    ensures
        white == white_space(c),
{
    let code: u32 = c as u32;
    (0x9 <= code && code <= 0xd) || code == 0x20 || code == 0x85 || code == 0xa0 || code == 0x1680
        || (0x2000 <= code && code <= 0x200a) || code == 0x2028 || code == 0x2029 || code == 0x202f
        || code == 0x205f || code == 0x3000
}

/// Appends the decimal notation of an unsigned number.
pub fn append_decimal(output: &mut String, value: u64)
    ensures
        final(output)@ == old(output)@ + decimal(value as nat),
    decreases value,
{
    if value >= 10 {
        append_decimal(output, value / 10);
    }
    let ones: u8 = (value % 10) as u8;
    output.push((48 + ones) as char);
}

/// Appends the decimal notation of a signed number.
pub fn append_signed(output: &mut String, value: i64)
    ensures
        final(output)@ == old(output)@ + signed_decimal(value as int),
{
    if value < 0 {
        output.push('-');
        let magnitude: u64 = (-(value as i128)) as u64;
        append_decimal(output, magnitude);
        assert(output@ == old(output)@ + signed_decimal(value as int));
    } else {
        append_decimal(output, value as u64);
    }
}

/// Appends `count` copies of one character.
pub fn append_repeated(output: &mut String, character: char, count: usize)
    ensures
        final(output)@ == old(output)@ + repeated(character, count as nat),
{
    let mut done: usize = 0;
    while done < count
        invariant
            done <= count,
            output@ == old(output)@ + repeated(character, done as nat),
        decreases count - done,
    {
        output.push(character);
        done = done + 1;
        assert(output@ == old(output)@ + repeated(character, done as nat));
    }
}

/// Appends `text`, right-aligned in a field of at least `width` characters.
pub fn append_right_aligned(output: &mut String, text: &str, width: usize)
    ensures
        final(output)@ == old(output)@ + right_aligned(text@, width as nat),
{
    let length = text.unicode_len();
    if length < width {
        append_repeated(output, ' ', width - length);
        output.append(text);
        assert(output@ == old(output)@ + right_aligned(text@, width as nat));
    } else {
        output.append(text);
    }
}

/// The decimal notation of an unsigned number.
pub fn decimal_text(value: u64) -> (text: String)
    ensures
        text@ == decimal(value as nat),
{
    let mut text = String::new();
    append_decimal(&mut text, value);
    assert(text@ =~= decimal(value as nat));
    text
}

/// A longer run of digits denotes at least as much as any run it extends.
proof fn lemma_digits_value_grows(text: Seq<char>, n: int)
    requires
        0 <= n <= text.len(),
        all_digits(text),
    ensures
        digits_value(text.take(n)) <= digits_value(text),
    decreases text.len(),
{
    if n == text.len() {
        assert(text.take(n) == text);
    } else {
        let shorter = text.drop_last();
        assert forall|i: int| 0 <= i < shorter.len() implies '0' <= #[trigger] shorter[i] && shorter[i]
            <= '9' by {
            assert(shorter[i] == text[i]);
        }
        lemma_digits_value_grows(shorter, n);
        assert(shorter.take(n) == text.take(n));
    }
}

/// Reads an unsigned number no larger than `limit`: at least one decimal
/// digit, possibly after a plus sign.
pub fn parse_unsigned(text: &str, limit: u64) -> (value: Option<u64>)
    ensures
        match value {
            Some(value) => unsigned_value(text@, limit as nat) == Some(value as nat),
            None => unsigned_value(text@, limit as nat) is None,
        },
{
    let chars = chars_of(text);
    let start: usize = if chars.len() > 0 && chars[0] == '+' {
        1
    } else {
        0
    };
    let ghost digits = unsigned_digits(text@);
    assert(digits == chars@.skip(start as int));
    if start == chars.len() {
        return None;
    }
    let mut value: u64 = 0;
    let mut i: usize = start;
    while i < chars.len()
        invariant
            start <= i <= chars.len(),
            digits == chars@.skip(start as int),
            digits == unsigned_digits(text@),
            digits.len() > 0,
            all_digits(digits.take(i - start)),
            value == digits_value(digits.take(i - start)),
            value <= limit,
        decreases chars.len() - i,
    {
        let c = chars[i];
        assert(c == digits[i - start]);
        if !('0' <= c && c <= '9') {
            return None;
        }
        let ghost now = digits.take(i - start);
        let ghost next = digits.take(i + 1 - start);
        assert(next.drop_last() == now);
        let wide: u128 = value as u128 * 10 + (c as u32 - 48) as u128;
        assert(wide == digits_value(next));
        if wide > limit as u128 {
            proof {
                if all_digits(digits) {
                    lemma_digits_value_grows(digits, i + 1 - start);
                }
            }
            return None;
        }
        value = wide as u64;
        assert(all_digits(next)) by {
            assert forall|k: int| 0 <= k < next.len() implies '0' <= #[trigger] next[k] && next[k]
                <= '9' by {
                if k < now.len() {
                    assert(now[k] == next[k]);
                }
            }
        }
        i = i + 1;
    }
    assert(digits.take(i - start) == digits);
    Some(value)
}

/// What `first_of` finds is the first occurrence.
pub proof fn lemma_first_of(text: Seq<char>, character: char, from: int)
    requires
        0 <= from <= text.len(),
    ensures
        ({
            let at = first_of(text, character, from);
            &&& from <= at <= text.len()
            &&& at < text.len() ==> text[at] == character
            &&& forall|i: int| from <= i < at ==> #[trigger] text[i] != character
        }),
    decreases text.len() - from,
{
    if from < text.len() && text[from] != character {
        lemma_first_of(text, character, from + 1);
    }
}

/// The views of some texts.
pub open spec fn views(texts: Seq<String>) -> Seq<Seq<char>> {
    Seq::new(texts.len(), |i: int| texts[i]@)
}

/// The lines of a text.
pub fn split_lines(text: &str) -> (lines: Vec<String>)
    ensures
        views(lines@) == lines_from(text@, 0),
{
    let chars = chars_of(text);
    let mut lines: Vec<String> = Vec::new();
    let mut from: usize = 0;
    assert(views(lines@) + lines_from(text@, 0) =~= lines_from(text@, 0));
    while from < chars.len()
        invariant
            from <= chars@.len(),
            chars@ == text@,
            views(lines@) + lines_from(text@, from as int) == lines_from(text@, 0),
        decreases chars@.len() - from,
    {
        let mut end: usize = from;
        while end < chars.len() && chars[end] != '\n'
            invariant
                from <= end <= chars@.len(),
                chars@ == text@,
                first_of(text@, '\n', end as int) == first_of(text@, '\n', from as int),
            decreases chars@.len() - end,
        {
            end = end + 1;
        }
        let ghost before = views(lines@);
        if end < chars.len() {
            let stop: usize = if end > from && chars[end - 1] == '\r' {
                end - 1
            } else {
                end
            };
            let line = text.substring_char(from, stop).to_owned();
            assert(line@ =~= without_return(text@.subrange(from as int, end as int)));
            lines.push(line);
            assert(views(lines@) =~= before.push(line@));
            assert(lines_from(text@, from as int) == seq![line@] + lines_from(text@, end + 1));
            assert(before.push(line@) + lines_from(text@, end + 1) =~= before + (seq![line@]
                + lines_from(text@, end + 1)));
            from = end + 1;
        } else {
            let line = text.substring_char(from, end).to_owned();
            assert(line@ =~= text@.skip(from as int));
            lines.push(line);
            assert(views(lines@) =~= before + seq![line@]);
            from = end;
            assert(lines_from(text@, from as int) =~= Seq::empty());
            assert(views(lines@) + Seq::<Seq<char>>::empty() =~= views(lines@));
        }
    }
    assert(views(lines@) + lines_from(text@, from as int) =~= views(lines@));
    lines
}

/// Adding a whole line to a text that ends with a line adds that line.
pub proof fn lemma_line_added(text: Seq<char>, line: Seq<char>, from: int)
    requires
        0 <= from <= text.len(),
        text.len() > 0 ==> text.last() == '\n',
        forall|i: int| 0 <= i < line.len() ==> #[trigger] line[i] != '\n' && line[i] != '\r',
    ensures
        lines_from(text + line.push('\n'), from) == lines_from(text, from).push(line),
    decreases text.len() - from,
{
    let whole = text + line.push('\n');
    lemma_first_of(whole, '\n', from);
    let end = first_of(whole, '\n', from);
    assert(whole[text.len() as int + line.len()] == '\n');
    if from == text.len() {
        if end < text.len() + line.len() {
            assert(whole[end] == line[end - text.len()]);
        }
        assert(whole.subrange(from, end) =~= line);
        assert(lines_from(whole, end + 1) =~= Seq::empty());
        assert(lines_from(whole, from) =~= seq![line]);
        assert(lines_from(text, from).push(line) =~= seq![line]);
    } else {
        lemma_first_of(text, '\n', from);
        let stop = first_of(text, '\n', from);
        assert(text[text.len() - 1] == '\n');
        assert(whole[stop] == text[stop]);
        if end < stop {
            assert(whole[end] == text[end]);
        }
        assert(end == stop);
        lemma_line_added(text, line, end + 1);
        assert(whole.subrange(from, end) =~= text.subrange(from, end));
        assert(lines_from(whole, from) =~= lines_from(text, from).push(line));
    }
}

/// The decimal notation of a number is at least one digit, without leading
/// zeros, and denotes that number.
pub proof fn law_decimals_denote_their_number(value: nat)
    ensures
        decimal(value).len() > 0,
        all_digits(decimal(value)),
        digits_value(decimal(value)) == value,
        decimal(value)[0] == '0' ==> value == 0 && decimal(value).len() == 1,
    decreases value,
{
    if value >= 10 {
        let front = decimal(value / 10);
        law_decimals_denote_their_number(value / 10);
        assert(decimal(value).drop_last() =~= front);
        assert(decimal(value).last() as nat == 48 + value % 10);
        assert forall|i: int| 0 <= i < decimal(value).len() implies '0' <= #[trigger] decimal(
            value,
        )[i] && decimal(value)[i] <= '9' by {
            if i < front.len() {
                assert(decimal(value)[i] == front[i]);
            }
        }
        assert(decimal(value)[0] == front[0]);
    } else {
        assert(decimal(value).drop_last() =~= Seq::empty());
        reveal_with_fuel(digits_value, 2);
    }
}

/// A negative number is written with a minus sign before its magnitude, any
/// other without a sign, and no two numbers are written alike.
pub proof fn law_signed_notation(a: int, b: int)
    ensures
        a > 0 ==> signed_decimal(-a) == seq!['-'] + signed_decimal(a),
        a >= 0 ==> digits_value(signed_decimal(a)) == a,
        signed_decimal(a)[0] == '-' <==> a < 0,
        signed_decimal(a) == signed_decimal(b) ==> a == b,
{
    let x = if a < 0 {
        -a
    } else {
        a
    };
    let y = if b < 0 {
        -b
    } else {
        b
    };
    law_decimals_denote_their_number(x as nat);
    law_decimals_denote_their_number(y as nat);
    if a < 0 {
        assert(signed_decimal(a).skip(1) =~= decimal(x as nat));
    }
    if b < 0 {
        assert(signed_decimal(b).skip(1) =~= decimal(y as nat));
    }
}

/// A written number is read back, with or without a plus sign, if it is within
/// the limit. A text that is empty or holds anything but digits is no number.
pub proof fn law_written_numbers_are_read(value: nat, limit: nat, text: Seq<char>)
    ensures
        unsigned_value(decimal(value), limit) == (if value <= limit {
            Some(value)
        } else {
            None
        }),
        unsigned_value(seq!['+'] + decimal(value), limit) == unsigned_value(decimal(value), limit),
        unsigned_value(Seq::empty(), limit) is None,
        (exists|i: int|
            0 <= i < text.len() && !('0' <= #[trigger] text[i] && text[i] <= '9') && !(i == 0
                && text[i] == '+')) ==> unsigned_value(text, limit) is None,
{
    law_decimals_denote_their_number(value);
    assert((seq!['+'] + decimal(value)).skip(1) =~= decimal(value));
    if exists|i: int|
        0 <= i < text.len() && !('0' <= #[trigger] text[i] && text[i] <= '9') && !(i == 0
            && text[i] == '+') {
        let i = choose|i: int|
            0 <= i < text.len() && !('0' <= #[trigger] text[i] && text[i] <= '9') && !(i == 0
                && text[i] == '+');
        let digits = unsigned_digits(text);
        if text[0] == '+' {
            assert(digits[i - 1] == text[i]);
        } else {
            assert(digits[i] == text[i]);
        }
    }
}

/// Each digit counts ten times as much as the one behind it.
pub proof fn law_digits_count_by_tens(text: Seq<char>, last: char)
    requires
        '0' <= last && last <= '9',
    ensures
        digits_value(text.push(last)) == 10 * digits_value(text) + (last as int - '0' as int),
{
    assert(text.push(last).drop_last() =~= text);
}

/// Right-aligned text ends with the text, has blanks before it, and takes just
/// the field, or the text where that is longer.
pub proof fn law_alignment(text: Seq<char>, width: nat)
    ensures
        ({
            let aligned = right_aligned(text, width);
            &&& aligned.len() == if text.len() < width {
                width
            } else {
                text.len()
            }
            &&& aligned.skip(aligned.len() - text.len()) == text
            &&& forall|i: int|
                0 <= i < aligned.len() - text.len() ==> #[trigger] aligned[i] == ' '
        }),
{
    let aligned = right_aligned(text, width);
    assert(aligned.skip(aligned.len() - text.len()) =~= text);
}

/// Lower-case letters of ASCII are raised, 32 places apart; no other character
/// changes, and raising twice is raising once.
pub proof fn law_upper_case(c: char)
    ensures
        'a' <= c && c <= 'z' ==> ascii_upper(c) as int + 32 == c as int,
        !('a' <= c && c <= 'z') ==> ascii_upper(c) == c,
        ascii_upper(ascii_upper(c)) == ascii_upper(c),
{
}

/// A text occurs in every text that is put together around it, and nowhere
/// else; it begins those that it is put in front of.
pub proof fn law_runs_are_parts(before: Seq<char>, run: Seq<char>, after: Seq<char>, text: Seq<char>)
    ensures
        contains_run(before + run + after, run),
        begins_with(run + after, run),
        contains_run(text, run) ==> exists|front: Seq<char>, back: Seq<char>|
            text == #[trigger] (front + run + back),
{
    let whole = before + run + after;
    assert(whole.subrange(before.len() as int, before.len() as int + run.len()) =~= run);
    assert(run_at(whole, run, before.len() as int));
    assert((run + after).subrange(0, run.len() as int) =~= run);
    if contains_run(text, run) {
        let i = choose|i: int| #[trigger] run_at(text, run, i);
        assert(text =~= text.take(i) + run + text.skip(i + run.len()));
    }
}

/// A text that is put together from whole lines has just these lines.
pub proof fn law_whole_lines_are_split(text: Seq<char>, line: Seq<char>)
    requires
        text.len() > 0 ==> text.last() == '\n',
        forall|i: int| 0 <= i < line.len() ==> #[trigger] line[i] != '\n' && line[i] != '\r',
    ensures
        lines_from(Seq::empty(), 0).len() == 0,
        lines_from(text + line.push('\n'), 0) == lines_from(text, 0).push(line),
        line.len() > 0 ==> lines_from(line, 0) == seq![line],
{
    lemma_line_added(text, line, 0);
    if line.len() > 0 {
        lemma_first_of(line, '\n', 0);
        assert(line.skip(0) =~= line);
    }
}

/// A carriage return before the end of a line is no part of the line.
pub proof fn law_carriage_returns_are_dropped(line: Seq<char>)
    requires
        forall|i: int| 0 <= i < line.len() ==> #[trigger] line[i] != '\n' && line[i] != '\r',
    ensures
        lines_from(line + seq!['\r', '\n'], 0) == seq![line],
{
    let text = line + seq!['\r', '\n'];
    lemma_first_of(text, '\n', 0);
    let end = first_of(text, '\n', 0);
    assert(text[line.len() as int + 1] == '\n');
    if end < line.len() {
        assert(text[end] == line[end]);
    }
    assert(text[line.len() as int] == '\r');
    assert(end == line.len() + 1);
    assert(without_return(text.subrange(0, end)) =~= line);
    assert(lines_from(text, end + 1) =~= Seq::empty());
    assert(lines_from(text, 0) =~= seq![line]);
}

} // verus!
