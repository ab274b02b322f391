//! Text as a sequence of characters: the few operations the rest is built from.

use vstd::prelude::*;

verus! {

/// `String::push`: the character is added at the end.
pub assume_specification[ String::push ](text: &mut String, c: char)
    ensures
        final(text)@ == old(text)@.push(c),
;

/// What `str::to_lowercase` makes of a text.
pub uninterp spec fn lowercase(text: Seq<char>) -> Seq<char>;

/// What `str::to_uppercase` makes of a text.
pub uninterp spec fn uppercase(text: Seq<char>) -> Seq<char>;

/// Calls `str::to_lowercase`, whose result is a function of the text alone.
#[verifier::external_body]
pub(crate) fn to_lowercase(text: &str) -> (lower: String)
    ensures
        lower@ == lowercase(text@),
{
    text.to_lowercase()
}

/// Calls `str::to_uppercase`, whose result is a function of the text alone.
#[verifier::external_body]
pub(crate) fn to_uppercase(text: &str) -> (upper: String)
    ensures
        upper@ == uppercase(text@),
{
    text.to_uppercase()
}

/// The texts of a list, in order.
pub open spec fn texts(list: Seq<String>) -> Seq<Seq<char>> {
    list.map_values(|t: String| t@)
}

/// The text of an optional string.
pub open spec fn maybe(text: Option<String>) -> Option<Seq<char>> {
    match text {
        Some(t) => Some(t@),
        None => None,
    }
}

/// The text of an optional string slice.
pub open spec fn maybe_str(text: Option<&str>) -> Option<Seq<char>> {
    match text {
        Some(t) => Some(t@),
        None => None,
    }
}

/// The text itself, or the empty text where there is none.
pub open spec fn or_empty(text: Option<String>) -> Seq<char> {
    match text {
        Some(t) => t@,
        None => Seq::empty(),
    }
}

/// Whether two texts hold the same characters.
pub fn same_text(a: &str, b: &str) -> (same: bool)
    ensures
        same == (a@ == b@),
{
    a.to_owned() == b.to_owned()
}

/// Whether two optional texts are both absent, or hold the same characters.
pub fn same_maybe(a: &Option<String>, b: &Option<String>) -> (same: bool)
    ensures
        same == (maybe(*a) == maybe(*b)),
{
    match (a, b) {
        (Some(x), Some(y)) => same_text(x.as_str(), y.as_str()),
        (None, None) => true,
        _ => false,
    }
}

/// A copy of an optional text.
pub fn copy_maybe(text: &Option<String>) -> (copy: Option<String>)
    ensures
        copy == *text,
{
    match text {
        Some(t) => Some(t.clone()),
        None => None,
    }
}

/// A copy of a list of texts.
pub fn copy_texts(list: &Vec<String>) -> (copy: Vec<String>)
    ensures
        copy@ == list@,
{
    let mut copy: Vec<String> = Vec::new();
    for i in 0..list.len()
        invariant
            copy@ == list@.take(i as int),
    {
        copy.push(list[i].clone());
        assert(list@.take(i + 1) =~= list@.take(i as int).push(list@[i as int]));
    }
    assert(list@.take(list.len() as int) =~= list@);
    copy
}

/// The characters of a text.
pub fn chars_of(text: &str) -> (chars: Vec<char>)
    ensures
        chars@ == text@,
{
    let mut chars: Vec<char> = Vec::new();
    for c in it: text.chars()
        invariant
            it.index() <= it.seq().len(),
            it.seq() == text@,
            chars@ == text@.take(it.index()),
    {
        chars.push(c);
    }
    chars
}

/// The text made of the characters from `from` up to `to`.
pub fn text_of(chars: &Vec<char>, from: usize, to: usize) -> (text: String)
    requires
        from <= to <= chars.len(),
    ensures
        text@ == chars@.subrange(from as int, to as int),
{
    let mut text = String::new();
    for i in from..to
        invariant
            from <= to <= chars.len(),
            text@ == chars@.subrange(from as int, i as int),
    {
        text.push(chars[i]);
        assert(chars@.subrange(from as int, i + 1) =~= chars@.subrange(
            from as int,
            i as int,
        ).push(chars@[i as int]));
    }
    text
}

/// At most the first `count` characters of a text.
pub open spec fn beginning(text: Seq<char>, count: int) -> Seq<char> {
    if text.len() <= count {
        text
    } else {
        text.take(count)
    }
}

/// At most the first `count` characters of a text.
pub fn start_of(text: &str, count: usize) -> (start: String)
    ensures
        start@ == beginning(text@, count as int),
{
    let chars = chars_of(text);
    let end: usize = if chars.len() < count {
        chars.len()
    } else {
        count
    };
    let start = text_of(&chars, 0, end);
    assert(start@ =~= beginning(text@, count as int));
    start
}

// ---------------------------------------------------------------- white space

/// Unicode's `White_Space` property.
pub open spec fn is_space(c: char) -> bool {
    let n = c as u32;
    ||| 0x09 <= n <= 0x0d
    ||| n == 0x20
    ||| n == 0x85
    ||| n == 0xa0
    ||| n == 0x1680
    ||| 0x2000 <= n <= 0x200a
    ||| n == 0x2028
    ||| n == 0x2029
    ||| n == 0x202f
    ||| n == 0x205f
    ||| n == 0x3000
}

/// Whether a character is white space.
pub fn space(c: char) -> (yes: bool)
    ensures
        yes == is_space(c),
{
    let n: u32 = c as u32;
    (0x09 <= n && n <= 0x0d) || n == 0x20 || n == 0x85 || n == 0xa0 || n == 0x1680 || (0x2000 <= n
        && n <= 0x200a) || n == 0x2028 || n == 0x2029 || n == 0x202f || n == 0x205f || n == 0x3000
}

/// A text without its leading white space.
pub open spec fn without_leading_space(text: Seq<char>) -> Seq<char>
    decreases text.len(),
{
    if text.len() > 0 && is_space(text.first()) {
        without_leading_space(text.drop_first())
    } else {
        text
    }
}

/// A text without its trailing white space.
pub open spec fn without_trailing_space(text: Seq<char>) -> Seq<char>
    decreases text.len(),
{
    if text.len() > 0 && is_space(text.last()) {
        without_trailing_space(text.drop_last())
    } else {
        text
    }
}

/// A text without the white space around it.
pub open spec fn trimmed(text: Seq<char>) -> Seq<char> {
    without_trailing_space(without_leading_space(text))
}

/// A text without the white space around it.
pub fn trim(text: &str) -> (core: String)
    ensures
        core@ == trimmed(text@),
{
    let chars = chars_of(text);
    assert(chars@.subrange(0, chars@.len() as int) =~= text@);
    trim_chars(&chars, 0, chars.len())
}

/// The characters from `from` up to `to`, without the white space around them.
pub fn trim_chars(chars: &Vec<char>, from: usize, to: usize) -> (core: String)
    requires
        from <= to <= chars.len(),
    ensures
        core@ == trimmed(chars@.subrange(from as int, to as int)),
{
    let mut start: usize = from;
    let ghost whole = chars@.subrange(from as int, to as int);
    while start < to && space(chars[start])
        invariant
            from <= start <= to <= chars.len(),
            whole == chars@.subrange(from as int, to as int),
            without_leading_space(whole) == without_leading_space(
                chars@.subrange(start as int, to as int),
            ),
        decreases to - start,
    {
        let ghost rest = chars@.subrange(start as int, to as int);
        assert(rest.drop_first() =~= chars@.subrange(start + 1, to as int));
        start = start + 1;
    }
    let ghost front = chars@.subrange(start as int, to as int);
    assert(without_leading_space(whole) == front);
    let mut end: usize = to;
    while start < end && space(chars[end - 1])
        invariant
            start <= end <= to <= chars.len(),
            without_trailing_space(front) == without_trailing_space(
                chars@.subrange(start as int, end as int),
            ),
        decreases end,
    {
        let ghost rest = chars@.subrange(start as int, end as int);
        assert(rest.drop_last() =~= chars@.subrange(start as int, end - 1));
        end = end - 1;
    }
    text_of(chars, start, end)
}

/// Trimming leaves no white space at either end, and trimming again changes
/// nothing.
pub proof fn trimming_is_final(text: Seq<char>)
    ensures
        trimmed(text).len() > 0 ==> !is_space(trimmed(text).first()) && !is_space(
            trimmed(text).last(),
        ),
        trimmed(trimmed(text)) == trimmed(text),
{
    leading_space_is_gone(text);
    trailing_space_is_gone(without_leading_space(text));
    let core = trimmed(text);
    if core.len() > 0 {
        assert(without_leading_space(core) == core);
        assert(without_trailing_space(core) == core);
    }
}

/// White space put around a text is trimmed off again.
pub proof fn space_around_is_trimmed(before: Seq<char>, text: Seq<char>, after: Seq<char>)
    requires
        forall|i: int| 0 <= i < before.len() ==> is_space(#[trigger] before[i]),
        forall|i: int| 0 <= i < after.len() ==> is_space(#[trigger] after[i]),
    ensures
        trimmed(before + text + after) == trimmed(text),
{
    assert(before + text + after =~= before + (text + after));
    space_in_front_is_dropped(before, text + after);
    space_behind_is_trimmed(text, after);
}

proof fn space_in_front_is_dropped(before: Seq<char>, text: Seq<char>)
    requires
        forall|i: int| 0 <= i < before.len() ==> is_space(#[trigger] before[i]),
    ensures
        without_leading_space(before + text) == without_leading_space(text),
    decreases before.len(),
{
    if before.len() == 0 {
        assert(before + text =~= text);
    } else {
        assert((before + text).drop_first() =~= before.drop_first() + text);
        assert((before + text).first() == before[0]);
        space_in_front_is_dropped(before.drop_first(), text);
    }
}

proof fn space_behind_is_dropped(text: Seq<char>, after: Seq<char>)
    requires
        forall|i: int| 0 <= i < after.len() ==> is_space(#[trigger] after[i]),
    ensures
        without_trailing_space(text + after) == without_trailing_space(text),
    decreases after.len(),
{
    if after.len() == 0 {
        assert(text + after =~= text);
    } else {
        assert((text + after).drop_last() =~= text + after.drop_last());
        assert((text + after).last() == after[after.len() - 1]);
        space_behind_is_dropped(text, after.drop_last());
    }
}

proof fn space_behind_is_trimmed(text: Seq<char>, after: Seq<char>)
    requires
        forall|i: int| 0 <= i < after.len() ==> is_space(#[trigger] after[i]),
    ensures
        trimmed(text + after) == trimmed(text),
    decreases text.len(),
{
    if text.len() == 0 {
        assert(text + after =~= after + text);
        space_in_front_is_dropped(after, text);
    } else if is_space(text.first()) {
        assert((text + after).first() == text.first());
        assert((text + after).drop_first() =~= text.drop_first() + after);
        space_behind_is_trimmed(text.drop_first(), after);
    } else {
        assert((text + after).first() == text.first());
        space_behind_is_dropped(text, after);
    }
}

proof fn leading_space_is_gone(text: Seq<char>)
    ensures
        without_leading_space(text).len() > 0 ==> !is_space(without_leading_space(text).first()),
    decreases text.len(),
{
    if text.len() > 0 && is_space(text.first()) {
        leading_space_is_gone(text.drop_first());
    }
}

proof fn trailing_space_is_gone(text: Seq<char>)
    ensures
        without_trailing_space(text).len() > 0 ==> {
            &&& !is_space(without_trailing_space(text).last())
            &&& without_trailing_space(text).first() == text.first()
        },
    decreases text.len(),
{
    if text.len() > 0 && is_space(text.last()) {
        trailing_space_is_gone(text.drop_last());
    }
}

// ------------------------------------------------------------------ searching

/// Whether `needle` occurs in `text` at position `at`.
pub open spec fn occurs_at(text: Seq<char>, needle: Seq<char>, at: int) -> bool {
    &&& 0 <= at
    &&& at + needle.len() <= text.len()
    &&& text.subrange(at, at + needle.len()) == needle
}

/// Whether `needle` occurs somewhere in `text`.
pub open spec fn occurs(text: Seq<char>, needle: Seq<char>) -> bool {
    exists|at: int| occurs_at(text, needle, at)
}

/// Whether `text` ends with `suffix`.
pub open spec fn ends(text: Seq<char>, suffix: Seq<char>) -> bool {
    occurs_at(text, suffix, text.len() - suffix.len())
}

fn found_at(text: &Vec<char>, needle: &Vec<char>, at: usize) -> (found: bool)
    requires
        at + needle.len() <= text.len(),
    ensures
        found == occurs_at(text@, needle@, at as int),
{
    let ghost window = text@.subrange(at as int, at + needle@.len());
    for i in 0..needle.len()
        invariant
            at + needle.len() <= text.len(),
            window == text@.subrange(at as int, at + needle@.len()),
            forall|j: int| 0 <= j < i ==> window[j] == needle@[j],
    {
        if text[at + i] != needle[i] {
            assert(window[i as int] != needle@[i as int]);
            return false;
        }
    }
    assert(window =~= needle@);
    true
}

/// Whether `needle` occurs somewhere in `text`.
pub fn contains(text: &str, needle: &str) -> (found: bool)
    ensures
        found == occurs(text@, needle@),
{
    let hay = chars_of(text);
    let pin = chars_of(needle);
    if pin.len() > hay.len() {
        return false;
    }
    let last: usize = hay.len() - pin.len();
    let mut at: usize = 0;
    while at <= last
        invariant
            hay@ == text@,
            pin@ == needle@,
            last + pin.len() == hay.len(),
            forall|i: int| 0 <= i < at ==> !occurs_at(text@, needle@, i),
        decreases last + 1 - at,
    {
        if found_at(&hay, &pin, at) {
            return true;
        }
        if at == last {
            return false;
        }
        at = at + 1;
    }
    false
}

/// Whether `text` ends with `suffix`.
pub fn ends_with(text: &str, suffix: &str) -> (found: bool)
    ensures
        found == ends(text@, suffix@),
{
    let hay = chars_of(text);
    let pin = chars_of(suffix);
    if pin.len() > hay.len() {
        return false;
    }
    found_at(&hay, &pin, hay.len() - pin.len())
}

// ---------------------------------------------------------- splitting, joining

/// The pieces of a text between the characters `a` and `b`.
pub open spec fn split_on(text: Seq<char>, a: char, b: char) -> Seq<Seq<char>>
    decreases text.len(),
{
    if text.len() == 0 {
        seq![Seq::empty()]
    } else {
        let before = split_on(text.drop_last(), a, b);
        if text.last() == a || text.last() == b {
            before.push(Seq::empty())
        } else {
            before.drop_last().push(before.last().push(text.last()))
        }
    }
}

/// There is always at least one piece.
pub proof fn split_has_a_piece(text: Seq<char>, a: char, b: char)
    ensures
        split_on(text, a, b).len() > 0,
    decreases text.len(),
{
    if text.len() > 0 {
        split_has_a_piece(text.drop_last(), a, b);
    }
}

/// The pieces of a text between the characters `a` and `b`.
pub fn split(text: &str, a: char, b: char) -> (pieces: Vec<String>)
    ensures
        texts(pieces@) == split_on(text@, a, b),
{
    let chars = chars_of(text);
    let mut pieces: Vec<String> = Vec::new();
    let mut current = String::new();
    assert(chars@.take(0) =~= Seq::empty());
    assert(texts(pieces@).push(current@) =~= split_on(chars@.take(0), a, b));
    for i in 0..chars.len()
        invariant
            chars@ == text@,
            texts(pieces@).push(current@) == split_on(chars@.take(i as int), a, b),
    {
        let c = chars[i];
        let ghost so_far = chars@.take(i + 1);
        let ghost earlier = texts(pieces@).push(current@);
        assert(so_far.drop_last() =~= chars@.take(i as int));
        assert(earlier.last() == current@);
        assert(earlier.drop_last() =~= texts(pieces@));
        if c == a || c == b {
            let ghost held = pieces@;
            let ghost piece = current;
            pieces.push(current);
            current = String::new();
            assert(texts(pieces@) =~= texts(held).push(piece@));
        } else {
            current.push(c);
        }
        assert(texts(pieces@).push(current@) =~= split_on(so_far, a, b));
    }
    assert(chars@.take(chars.len() as int) =~= text@);
    let ghost held = pieces@;
    let ghost piece = current;
    pieces.push(current);
    assert(texts(pieces@) =~= texts(held).push(piece@));
    pieces
}

/// Pieces without the space around them, and without those that are then empty.
pub open spec fn entries_of(pieces: Seq<Seq<char>>) -> Seq<Seq<char>>
    decreases pieces.len(),
{
    if pieces.len() == 0 {
        Seq::empty()
    } else {
        let earlier = entries_of(pieces.drop_last());
        let last = trimmed(pieces.last());
        if last.len() == 0 {
            earlier
        } else {
            earlier.push(last)
        }
    }
}

/// What a list written with the characters `a` and `b` between its entries
/// holds: the pieces, without space around them, and without empty ones.
pub fn entries(text: &str, a: char, b: char) -> (found: Vec<String>)
    ensures
        texts(found@) == entries_of(split_on(text@, a, b)),
{
    let pieces = split(text, a, b);
    let ghost all = texts(pieces@);
    let mut found: Vec<String> = Vec::new();
    assert(texts(found@) =~= entries_of(all.take(0)));
    for i in 0..pieces.len()
        invariant
            all == texts(pieces@),
            texts(found@) == entries_of(all.take(i as int)),
    {
        let ghost earlier = found@;
        assert(all.take(i + 1).drop_last() =~= all.take(i as int));
        assert(all.take(i + 1).last() == pieces@[i as int]@);
        let entry = trim(pieces[i].as_str());
        if entry.as_str().unicode_len() > 0 {
            let ghost kept = entry@;
            found.push(entry);
            assert(texts(found@) =~= texts(earlier).push(kept));
        }
    }
    assert(all.take(pieces.len() as int) =~= all);
    found
}

/// The position of the first `c` in a text.
pub open spec fn first_at(text: Seq<char>, c: char) -> Option<int>
    decreases text.len(),
{
    if text.len() == 0 {
        None
    } else {
        match first_at(text.drop_last(), c) {
            Some(at) => Some(at),
            None => if text.last() == c {
                Some(text.len() - 1)
            } else {
                None
            },
        }
    }
}

/// What stands before and behind the first `c` of a text; nothing where there
/// is none.
pub open spec fn cut_on(text: Seq<char>, c: char) -> Option<(Seq<char>, Seq<char>)> {
    match first_at(text, c) {
        Some(at) => Some((text.take(at), text.skip(at + 1))),
        None => None,
    }
}

proof fn first_stays(text: Seq<char>, c: char, to: int)
    requires
        0 <= to <= text.len(),
        first_at(text.take(to), c) is Some,
    ensures
        first_at(text, c) == first_at(text.take(to), c),
    decreases text.len() - to,
{
    if to < text.len() {
        assert(text.take(to + 1).drop_last() =~= text.take(to));
        first_stays(text, c, to + 1);
    } else {
        assert(text.take(to) =~= text);
    }
}

/// What stands before and behind the first `c` of a text.
pub fn cut(text: &str, c: char) -> (parts: Option<(String, String)>)
    ensures
        match parts {
            Some((front, back)) => cut_on(text@, c) == Some((front@, back@)),
            None => cut_on(text@, c) is None,
        },
{
    let chars = chars_of(text);
    for i in 0..chars.len()
        invariant
            chars@ == text@,
            first_at(chars@.take(i as int), c) is None,
    {
        assert(chars@.take(i + 1).drop_last() =~= chars@.take(i as int));
        if chars[i] == c {
            proof {
                first_stays(text@, c, i + 1);
            }
            let front = text_of(&chars, 0, i);
            let back = text_of(&chars, i + 1, chars.len());
            assert(front@ =~= text@.take(i as int));
            assert(back@ =~= text@.skip(i + 1));
            return Some((front, back));
        }
    }
    assert(chars@.take(chars.len() as int) =~= text@);
    None
}

/// The pieces one after the other, with `between` between them.
pub open spec fn joined(pieces: Seq<Seq<char>>, between: Seq<char>) -> Seq<char>
    decreases pieces.len(),
{
    if pieces.len() == 0 {
        Seq::empty()
    } else if pieces.len() == 1 {
        pieces[0]
    } else {
        joined(pieces.drop_last(), between) + between + pieces.last()
    }
}

/// The pieces one after the other, with `between` between them.
pub fn join(pieces: &Vec<String>, between: &str) -> (text: String)
    ensures
        text@ == joined(texts(pieces@), between@),
{
    let mut text = String::new();
    let ghost all = texts(pieces@);
    for i in 0..pieces.len()
        invariant
            all == texts(pieces@),
            text@ == joined(all.take(i as int), between@),
    {
        assert(all.take(i + 1).drop_last() =~= all.take(i as int));
        assert(all.take(i + 1).last() == pieces@[i as int]@);
        if i > 0 {
            text.append(between);
        }
        text.append(pieces[i].as_str());
        if i == 0 {
            assert(text@ =~= pieces@[0]@);
        }
    }
    assert(all.take(pieces.len() as int) =~= all);
    text
}

// -------------------------------------------------------------------- numbers

/// The digit that stands for a number below ten.
pub open spec fn digit(n: nat) -> char {
    (0x30 + n) as char
}

/// A number in decimal digits, without leading zeros.
pub open spec fn decimal(n: nat) -> Seq<char>
    decreases n,
{
    if n < 10 {
        seq![digit(n)]
    } else {
        decimal(n / 10).push(digit(n % 10))
    }
}

/// A number in decimal digits, with a minus sign where it is negative.
pub open spec fn decimal_int(n: int) -> Seq<char> {
    if n < 0 {
        seq!['-'] + decimal((-n) as nat)
    } else {
        decimal(n as nat)
    }
}

/// A number in decimal digits.
pub fn decimal_text(n: u64) -> (text: String)
    ensures
        text@ == decimal(n as nat),
    decreases n,
{
    let last: u8 = (n % 10) as u8;
    let c: char = (0x30 + last) as char;
    if n < 10 {
        let mut text = String::new();
        text.push(c);
        assert(text@ =~= decimal(n as nat));
        text
    } else {
        let mut text = decimal_text(n / 10);
        text.push(c);
        text
    }
}

/// A number in decimal digits, with a minus sign where it is negative.
pub fn decimal_int_text(n: i64) -> (text: String)
    ensures
        text@ == decimal_int(n as int),
{
    if n < 0 {
        let mut text = String::new();
        text.push('-');
        let size: u64 = (-(n as i128)) as u64;
        text.append(decimal_text(size).as_str());
        assert(text@ =~= decimal_int(n as int));
        text
    } else {
        decimal_text(n as u64)
    }
}

// ----------------------------------------------------------------- comparison

/// Whether `a` comes before `b` when texts are ordered by code point, the
/// shorter of two that agree first.
pub open spec fn before(a: Seq<char>, b: Seq<char>) -> bool
    decreases a.len(),
{
    if b.len() == 0 {
        false
    } else if a.len() == 0 {
        true
    } else if a.first() != b.first() {
        (a.first() as int) < (b.first() as int)
    } else {
        before(a.drop_first(), b.drop_first())
    }
}

/// Whether `a` comes before `b` in the order of code points.
pub fn comes_before(a: &str, b: &str) -> (yes: bool)
    ensures
        yes == before(a@, b@),
{
    let x = chars_of(a);
    let y = chars_of(b);
    let mut i: usize = 0;
    assert(x@.skip(0) =~= a@ && y@.skip(0) =~= b@);
    while i < x.len() && i < y.len() && x[i] == y[i]
        invariant
            x@ == a@,
            y@ == b@,
            i <= x.len(),
            i <= y.len(),
            before(a@, b@) == before(x@.skip(i as int), y@.skip(i as int)),
        decreases x.len() - i,
    {
        assert(x@.skip(i as int).drop_first() =~= x@.skip(i + 1));
        assert(y@.skip(i as int).drop_first() =~= y@.skip(i + 1));
        i = i + 1;
    }
    if i == y.len() {
        false
    } else if i == x.len() {
        true
    } else {
        assert(x@.skip(i as int).first() == x@[i as int]);
        assert(y@.skip(i as int).first() == y@[i as int]);
        x[i] < y[i]
    }
}

/// No text comes before itself, and of two different texts exactly one comes
/// before the other.
pub proof fn order_is_total(a: Seq<char>, b: Seq<char>)
    ensures
        !before(a, a),
        a != b ==> (before(a, b) <==> !before(b, a)),
    decreases a.len(),
{
    if a.len() > 0 {
        order_is_total(a.drop_first(), a.drop_first());
        if b.len() > 0 {
            order_is_total(a.drop_first(), b.drop_first());
            if a.first() == b.first() && a.drop_first() == b.drop_first() {
                assert(a =~= seq![a.first()] + a.drop_first());
                assert(b =~= seq![b.first()] + b.drop_first());
            } else if a.first() != b.first() {
                assert(before(a, b) <==> !before(b, a));
            } else {
                assert(before(b, a) == before(b.drop_first(), a.drop_first()));
                assert(before(a, b) <==> !before(b, a));
            }
        }
    } else if b.len() == 0 {
        assert(a =~= b);
    }
}

/// What comes before a text comes before everything after it.
pub proof fn order_is_transitive(a: Seq<char>, b: Seq<char>, c: Seq<char>)
    requires
        before(a, b),
        before(b, c),
    ensures
        before(a, c),
    decreases a.len(),
{
    if a.len() > 0 && b.len() > 0 && c.len() > 0 {
        if a.first() == b.first() && b.first() == c.first() {
            order_is_transitive(a.drop_first(), b.drop_first(), c.drop_first());
        }
    }
}

// -------------------------------------------------------------------- the meaning

/// The texts of a list are its texts, each in its place, and the text of an
/// optional string is the string's.
pub proof fn texts_stay_in_place(list: Seq<String>, text: String)
    ensures
        texts(list).len() == list.len(),
        forall|i: int| 0 <= i < list.len() ==> #[trigger] texts(list)[i] == list[i]@,
        maybe(Some(text)) == Some(text@),
        maybe(None) is None,
        or_empty(Some(text)) == text@,
        or_empty(None).len() == 0,
{
}

/// The text of an optional slice is the slice's.
pub proof fn slices_keep_their_text(text: &str)
    ensures
        maybe_str(Some(text)) == Some(text@),
        maybe_str(None) is None,
{
}

/// The beginning of a text is a prefix of it, as long as was asked for or as the
/// text is.
pub proof fn a_beginning_is_a_prefix(text: Seq<char>, count: int)
    requires
        count >= 0,
    ensures
        beginning(text, count).is_prefix_of(text),
        beginning(text, count).len() == (if text.len() <= count {
            text.len() as int
        } else {
            count
        }),
{
    assert(beginning(text, count) =~= text.take(beginning(text, count).len() as int));
}

/// What counts as white space, character by character.
pub proof fn white_space_is_unicodes(c: char)
    ensures
        is_space(c) <==> seq![
            0x09u32,
            0x0a,
            0x0b,
            0x0c,
            0x0d,
            0x20,
            0x85,
            0xa0,
            0x1680,
            0x2000,
            0x2001,
            0x2002,
            0x2003,
            0x2004,
            0x2005,
            0x2006,
            0x2007,
            0x2008,
            0x2009,
            0x200a,
            0x2028,
            0x2029,
            0x202f,
            0x205f,
            0x3000,
        ].contains(c as u32),
{
    let n = c as u32;
    let all = seq![
        0x09u32,
        0x0a,
        0x0b,
        0x0c,
        0x0d,
        0x20,
        0x85,
        0xa0,
        0x1680,
        0x2000,
        0x2001,
        0x2002,
        0x2003,
        0x2004,
        0x2005,
        0x2006,
        0x2007,
        0x2008,
        0x2009,
        0x200a,
        0x2028,
        0x2029,
        0x202f,
        0x205f,
        0x3000,
    ];
    if is_space(c) {
        let at: int = if n <= 0x0d {
            n - 0x09
        } else if n == 0x20 {
            5
        } else if n == 0x85 {
            6
        } else if n == 0xa0 {
            7
        } else if n == 0x1680 {
            8
        } else if n <= 0x200a {
            9 + (n - 0x2000)
        } else if n == 0x2028 {
            20
        } else if n == 0x2029 {
            21
        } else if n == 0x202f {
            22
        } else if n == 0x205f {
            23
        } else {
            24
        };
        assert(all[at] == n);
    }
}

/// Trimming drops white space and nothing else, and drops all of it at the ends.
pub proof fn trimming_drops_only_space(text: Seq<char>)
    ensures
        exists|from: int, to: int|
            {
                &&& 0 <= from <= to <= text.len()
                &&& trimmed(text) == #[trigger] text.subrange(from, to)
                &&& forall|i: int| 0 <= i < from ==> is_space(#[trigger] text[i])
                &&& forall|i: int| to <= i < text.len() ==> is_space(#[trigger] text[i])
                &&& from < to ==> !is_space(text[from]) && !is_space(text[to - 1])
            },
{
    let front = without_leading_space(text);
    what_is_dropped_in_front(text);
    what_is_dropped_behind(front);
    let core = trimmed(text);
    let from = text.len() - front.len();
    let to = from + core.len();
    assert(front =~= text.skip(from));
    assert(core =~= front.take(core.len() as int));
    assert(core =~= text.subrange(from, to));
    assert forall|i: int| to <= i < text.len() implies is_space(#[trigger] text[i]) by {
        assert(front[i - from] == text[i]);
    }
    trimming_is_final(text);
    if from < to {
        assert(core[0] == text[from]);
        assert(core[core.len() - 1] == text[to - 1]);
    }
}

proof fn what_is_dropped_in_front(text: Seq<char>)
    ensures
        without_leading_space(text).len() <= text.len(),
        without_leading_space(text) == text.skip(text.len() - without_leading_space(text).len()),
        forall|i: int|
            0 <= i < text.len() - without_leading_space(text).len() ==> is_space(
                #[trigger] text[i],
            ),
    decreases text.len(),
{
    if text.len() > 0 && is_space(text.first()) {
        let rest = text.drop_first();
        what_is_dropped_in_front(rest);
        let core = without_leading_space(text);
        assert(core =~= text.skip(text.len() - core.len()));
        assert forall|i: int| 0 <= i < text.len() - core.len() implies is_space(
            #[trigger] text[i],
        ) by {
            if i > 0 {
                assert(rest[i - 1] == text[i]);
            }
        }
    } else {
        assert(text.skip(0) =~= text);
    }
}

proof fn what_is_dropped_behind(text: Seq<char>)
    ensures
        without_trailing_space(text).len() <= text.len(),
        without_trailing_space(text) == text.take(without_trailing_space(text).len() as int),
        forall|i: int|
            without_trailing_space(text).len() <= i < text.len() ==> is_space(#[trigger] text[i]),
    decreases text.len(),
{
    if text.len() > 0 && is_space(text.last()) {
        let rest = text.drop_last();
        what_is_dropped_behind(rest);
        let core = without_trailing_space(text);
        assert(core =~= text.take(core.len() as int));
        assert forall|i: int| core.len() <= i < text.len() implies is_space(
            #[trigger] text[i],
        ) by {
            if i < rest.len() {
                assert(rest[i] == text[i]);
            }
        }
    } else {
        assert(text.take(text.len() as int) =~= text);
    }
}

/// A text holds another exactly where it is that text with something in front and
/// behind, and ends with it exactly where nothing stands behind.
pub proof fn finding_is_cutting(text: Seq<char>, needle: Seq<char>)
    ensures
        occurs(text, needle) <==> exists|front: Seq<char>, back: Seq<char>|
            text == #[trigger] (front + needle + back),
        ends(text, needle) <==> exists|front: Seq<char>| text == #[trigger] (front + needle),
{
    if occurs(text, needle) {
        let at = choose|at: int| occurs_at(text, needle, at);
        let front = text.take(at);
        let back = text.skip(at + needle.len());
        assert(text.subrange(at, at + needle.len()) == needle);
        assert(text =~= front + text.subrange(at, at + needle.len()) + back);
        assert(text == front + needle + back);
    }
    if exists|front: Seq<char>, back: Seq<char>| text == #[trigger] (front + needle + back) {
        let (front, back) = choose|front: Seq<char>, back: Seq<char>|
            text == #[trigger] (front + needle + back);
        let at = front.len() as int;
        assert(text.subrange(at, at + needle.len()) =~= needle);
        assert(occurs_at(text, needle, at));
    }
    if ends(text, needle) {
        let at = text.len() - needle.len();
        let front = text.take(at);
        assert(text.subrange(at, at + needle.len()) == needle);
        assert(text =~= front + text.subrange(at, at + needle.len()));
        assert(text == front + needle);
    }
    if exists|front: Seq<char>| text == #[trigger] (front + needle) {
        let front = choose|front: Seq<char>| text == #[trigger] (front + needle);
        let at = front.len() as int;
        assert(text.subrange(at, at + needle.len()) =~= needle);
    }
}

/// Splitting loses nothing but the separators: no piece holds one, and the pieces
/// with `a` between them are the text again, with `a` for every separator.
pub proof fn splitting_loses_nothing(text: Seq<char>, a: char, b: char)
    ensures
        split_on(text, a, b).len() > 0,
        forall|p: int, i: int|
            0 <= p < split_on(text, a, b).len() && 0 <= i < split_on(text, a, b)[p].len()
                ==> #[trigger] split_on(text, a, b)[p][i] != a && split_on(text, a, b)[p][i] != b,
        joined(split_on(text, a, b), seq![a]) == text.map_values(
            |c: char|
                if c == b {
                    a
                } else {
                    c
                },
        ),
    decreases text.len(),
{
    let pieces = split_on(text, a, b);
    let marked = text.map_values(
        |c: char|
            if c == b {
                a
            } else {
                c
            },
    );
    if text.len() == 0 {
        assert(joined(pieces, seq![a]) =~= marked);
    } else {
        let shorter = text.drop_last();
        let earlier = split_on(shorter, a, b);
        splitting_loses_nothing(shorter, a, b);
        let before = shorter.map_values(
            |c: char|
                if c == b {
                    a
                } else {
                    c
                },
        );
        assert(marked =~= before.push(
            if text.last() == b {
                a
            } else {
                text.last()
            },
        ));
        if text.last() == a || text.last() == b {
            assert(pieces.drop_last() =~= earlier);
            assert(joined(pieces, seq![a]) =~= joined(earlier, seq![a]) + seq![a] + Seq::empty());
            assert(joined(pieces, seq![a]) =~= marked);
        } else {
            let longer = earlier.last().push(text.last());
            assert(pieces == earlier.drop_last().push(longer));
            assert(pieces.drop_last() =~= earlier.drop_last());
            if earlier.len() == 1 {
                assert(joined(pieces, seq![a]) == longer);
                assert(joined(earlier, seq![a]) == earlier[0]);
                assert(longer =~= marked);
            } else {
                let front = joined(earlier.drop_last(), seq![a]);
                assert(joined(earlier, seq![a]) == front + seq![a] + earlier.last());
                assert(joined(pieces, seq![a]) == front + seq![a] + longer);
                assert(front + seq![a] + longer =~= (front + seq![a] + earlier.last()).push(
                    text.last(),
                ));
            }
            assert forall|p: int, i: int|
                0 <= p < pieces.len() && 0 <= i < pieces[p].len() implies #[trigger] pieces[p][i]
                != a && pieces[p][i] != b by {
                if p < earlier.len() - 1 {
                    assert(pieces[p] == earlier[p]);
                    assert(earlier[p][i] != a && earlier[p][i] != b);
                } else if i < earlier.last().len() {
                    assert(earlier[earlier.len() - 1][i] != a && earlier[earlier.len() - 1][i]
                        != b);
                    assert(pieces[p][i] == earlier.last()[i]);
                }
            }
        }
    }
}

/// The entries of a list are its pieces without the space around them, in order,
/// but for those of which nothing is left.
pub proof fn entries_are_the_pieces_that_say_something(pieces: Seq<Seq<char>>)
    ensures
        entries_of(pieces) == pieces.map_values(|p: Seq<char>| trimmed(p)).filter(
            |p: Seq<char>| p.len() > 0,
        ),
    decreases pieces.len(),
{
    reveal(Seq::filter);
    let cores = pieces.map_values(|p: Seq<char>| trimmed(p));
    if pieces.len() > 0 {
        entries_are_the_pieces_that_say_something(pieces.drop_last());
        assert(cores.drop_last() =~= pieces.drop_last().map_values(|p: Seq<char>| trimmed(p)));
    } else {
        assert(entries_of(pieces) =~= cores.filter(|p: Seq<char>| p.len() > 0));
    }
}

/// Cutting a text loses nothing but the character it is cut on, and cuts at the
/// first one.
pub proof fn cutting_is_at_the_first(text: Seq<char>, c: char)
    ensures
        match cut_on(text, c) {
            Some((front, back)) => text == front + seq![c] + back && !front.contains(c),
            None => !text.contains(c),
        },
{
    the_first_is_first(text, c);
    if let Some(at) = first_at(text, c) {
        assert(text =~= text.take(at) + seq![c] + text.skip(at + 1));
    }
}

proof fn the_first_is_first(text: Seq<char>, c: char)
    ensures
        match first_at(text, c) {
            Some(at) => 0 <= at < text.len() && text[at] == c && !text.take(at).contains(c),
            None => !text.contains(c),
        },
    decreases text.len(),
{
    if text.len() > 0 {
        let shorter = text.drop_last();
        the_first_is_first(shorter, c);
        match first_at(shorter, c) {
            Some(at) => {
                assert(text.take(at) =~= shorter.take(at));
            },
            None => {
                assert(text.take(text.len() - 1) =~= shorter);
                if text.last() != c && text.contains(c) {
                    let i = choose|i: int| 0 <= i < text.len() && text[i] == c;
                    assert(shorter[i] == c);
                }
            },
        }
    }
}

/// Joining one list behind another puts the separator between the two and changes
/// neither; one piece alone is the piece.
pub proof fn joining_is_piecewise(
    first: Seq<Seq<char>>,
    second: Seq<Seq<char>>,
    piece: Seq<char>,
    between: Seq<char>,
)
    ensures
        joined(Seq::empty(), between).len() == 0,
        joined(seq![piece], between) == piece,
        first.len() > 0 && second.len() > 0 ==> joined(first + second, between) == joined(
            first,
            between,
        ) + between + joined(second, between),
    decreases second.len(),
{
    if first.len() > 0 && second.len() > 0 {
        let all = first + second;
        assert(all.drop_last() =~= first + second.drop_last());
        assert(all.last() == second.last());
        if second.len() == 1 {
            assert(first + second.drop_last() =~= first);
        } else {
            joining_is_piecewise(first, second.drop_last(), piece, between);
            assert(joined(all, between) =~= joined(first, between) + between + joined(
                second,
                between,
            ));
        }
    }
}

/// The digits of a number are decimal digits, stand for the number, and start with
/// no zero that says nothing; a negative one has the digits of its size behind a
/// minus sign.
pub proof fn digits_stand_for_the_number(n: nat)
    ensures
        decimal(n).len() > 0,
        forall|i: int| 0 <= i < decimal(n).len() ==> '0' <= #[trigger] decimal(n)[i] <= '9',
        decimal(n).fold_left(0, |value: int, c: char| 10 * value + (c as int - 48)) == n,
        n > 0 ==> decimal(n)[0] != '0',
        decimal_int(n as int) == decimal(n),
        n > 0 ==> decimal_int(-n) == seq!['-'] + decimal(n),
    decreases n,
{
    let digits = decimal(n);
    let read = |value: int, c: char| 10 * value + (c as int - 48);
    if n < 10 {
        assert(digits.drop_last() =~= Seq::empty());
        assert(digits.drop_last().fold_left(0, read) == 0);
        assert(digits.fold_left(0, read) == read(0, digits.last()));
    } else {
        digits_stand_for_the_number(n / 10);
        assert(digits.drop_last() =~= decimal(n / 10));
        assert(digits.fold_left(0, read) == read(
            decimal(n / 10).fold_left(0, read),
            digits.last(),
        ));
        assert(digits[0] == decimal(n / 10)[0]);
        assert forall|i: int| 0 <= i < digits.len() implies '0' <= #[trigger] digits[i] <= '9' by {
            if i < digits.len() - 1 {
                assert(digits[i] == decimal(n / 10)[i]);
            }
        }
    }
}

/// The order of texts is that of the first character in which they differ; a text
/// comes before what goes on behind it.
pub proof fn order_is_by_the_first_difference(a: Seq<char>, b: Seq<char>)
    ensures
        before(a, b) <==> exists|n: int|
            {
                &&& 0 <= n <= a.len()
                &&& n < b.len()
                &&& a.take(n) == #[trigger] b.take(n)
                &&& n == a.len() || (a[n] as int) < (b[n] as int)
            },
    decreases a.len(),
{
    if b.len() > 0 {
        assert(a.take(0) =~= b.take(0));
        if a.len() > 0 && a.first() == b.first() {
            let x = a.drop_first();
            let y = b.drop_first();
            order_is_by_the_first_difference(x, y);
            if before(a, b) {
                let n = choose|n: int|
                    {
                        &&& 0 <= n <= x.len()
                        &&& n < y.len()
                        &&& x.take(n) == #[trigger] y.take(n)
                        &&& n == x.len() || (x[n] as int) < (y[n] as int)
                    };
                assert(a.take(n + 1) =~= seq![a.first()] + x.take(n));
                assert(b.take(n + 1) =~= seq![b.first()] + y.take(n));
                assert(a.take(n + 1) == b.take(n + 1));
            }
            if exists|n: int|
                {
                    &&& 0 <= n <= a.len()
                    &&& n < b.len()
                    &&& a.take(n) == #[trigger] b.take(n)
                    &&& n == a.len() || (a[n] as int) < (b[n] as int)
                } {
                let n = choose|n: int|
                    {
                        &&& 0 <= n <= a.len()
                        &&& n < b.len()
                        &&& a.take(n) == #[trigger] b.take(n)
                        &&& n == a.len() || (a[n] as int) < (b[n] as int)
                    };
                assert(n > 0);
                assert(x.take(n - 1) =~= a.take(n).drop_first());
                assert(y.take(n - 1) =~= b.take(n).drop_first());
                assert(x.take(n - 1) == y.take(n - 1));
            }
        } else if a.len() > 0 {
            assert forall|n: int|
                {
                    &&& 0 <= n <= a.len()
                    &&& n < b.len()
                    &&& a.take(n) == #[trigger] b.take(n)
                    &&& n == a.len() || (a[n] as int) < (b[n] as int)
                } implies before(a, b) by {
                if n > 0 {
                    assert(a.take(n)[0] == a[0] && b.take(n)[0] == b[0]);
                }
            }
        }
    }
}

} // verus!
