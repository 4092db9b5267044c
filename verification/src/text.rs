//! Text as sequences of characters: white space, trimming, searching,
//! splitting, joining and decimal numerals.
use vstd::prelude::*;

verus! {

/// The characters of the Unicode `White_Space` property.
pub open spec fn is_whitespace_char(c: char) -> bool {
    let n = c as u32;
    ||| 0x09 <= n <= 0x0d
    ||| n == 0x20
    ||| n == 0x85
    ||| n == 0xa0
    ||| n == 0x1680
    ||| 0x2000 <= n <= 0x200a
    ||| n == 0x2028
    ||| n == 0x2029
    ||| n == 0x202f
    ||| n == 0x205f
    ||| n == 0x3000
}

/// Whether `c` is white space.
pub fn is_whitespace(c: char) -> (b: bool)
    ensures
        b == is_whitespace_char(c),
{
    let n: u32 = c as u32;
    (0x09 <= n && n <= 0x0d) || n == 0x20 || n == 0x85 || n == 0xa0 || n == 0x1680 || (0x2000 <= n
        && n <= 0x200a) || n == 0x2028 || n == 0x2029 || n == 0x202f || n == 0x205f || n == 0x3000
}

/// A text is blank when it holds white space only (the empty text is blank).
pub open spec fn is_blank(s: Seq<char>) -> bool {
    forall|i: int| 0 <= i < s.len() ==> is_whitespace_char(#[trigger] s[i])
}

/// Whether an optional text is missing or blank.
pub open spec fn is_missing_or_blank(s: Option<String>) -> bool {
    match s {
        Some(t) => is_blank(t@),
        None => true,
    }
}

/// The text of an optional string, empty when there is none.
pub open spec fn text_or_empty(s: Option<String>) -> Seq<char> {
    match s {
        Some(t) => t@,
        None => Seq::empty(),
    }
}

/// `s` without its leading white space.
pub open spec fn trim_start(s: Seq<char>) -> Seq<char>
    decreases s.len(),
{
    if s.len() > 0 && is_whitespace_char(s[0]) {
        trim_start(s.skip(1))
    } else {
        s
    }
}

/// `s` without its trailing white space.
pub open spec fn trim_end(s: Seq<char>) -> Seq<char>
    decreases s.len(),
{
    if s.len() > 0 && is_whitespace_char(s.last()) {
        trim_end(s.drop_last())
    } else {
        s
    }
}

/// `s` without the white space at its two ends.
pub open spec fn trim(s: Seq<char>) -> Seq<char> {
    trim_end(trim_start(s))
}

/// The first place in `s` where `c` stands twice in a row.
pub open spec fn find_pair(s: Seq<char>, c: char) -> Option<int>
    decreases s.len(),
{
    if s.len() < 2 {
        None
    } else if s[0] == c && s[1] == c {
        Some(0)
    } else {
        match find_pair(s.skip(1), c) {
            Some(i) => Some(i + 1),
            None => None,
        }
    }
}

/// The pieces of `s` between the occurrences of `sep`.
pub open spec fn split(s: Seq<char>, sep: char) -> Seq<Seq<char>>
    decreases s.len(),
{
    if s.len() == 0 {
        seq![Seq::<char>::empty()]
    } else {
        let init = split(s.drop_last(), sep);
        if s.last() == sep {
            init.push(Seq::<char>::empty())
        } else {
            init.drop_last().push(init.last().push(s.last()))
        }
    }
}

/// `parts` one after the other with `sep` between neighbours.
pub open spec fn join(parts: Seq<Seq<char>>, sep: Seq<char>) -> Seq<char>
    decreases parts.len(),
{
    if parts.len() == 0 {
        Seq::empty()
    } else if parts.len() == 1 {
        parts[0]
    } else {
        join(parts.drop_last(), sep) + sep + parts.last()
    }
}

/// The ASCII digit of `d`.
pub open spec fn digit_char(d: nat) -> char {
    (48 + d) as u32 as char
}

/// The decimal numeral of `n`, without leading zeros.
pub open spec fn decimal(n: nat) -> Seq<char>
    decreases n,
{
    if n < 10 {
        seq![digit_char(n)]
    } else {
        decimal(n / 10).push(digit_char(n % 10))
    }
}

/// The decimal numeral of `n`, with a minus sign when `n` is negative.
pub open spec fn signed_decimal(n: int) -> Seq<char> {
    if n < 0 {
        seq!['-'] + decimal((-n) as nat)
    } else {
        decimal(n as nat)
    }
}

/// Whether `c` is an ASCII digit.
pub open spec fn is_digit(c: char) -> bool {
    48 <= c as u32 <= 57
}

/// Whether `s` is a non-empty run of ASCII digits.
pub open spec fn is_numeral(s: Seq<char>) -> bool {
    &&& s.len() > 0
    &&& forall|i: int| 0 <= i < s.len() ==> is_digit(#[trigger] s[i])
}

/// The number that a run of digits stands for.
pub open spec fn numeral_value(s: Seq<char>) -> nat
    decreases s.len(),
{
    if s.len() == 0 {
        0
    } else {
        (10 * numeral_value(s.drop_last()) + (s.last() as u32 - 48)) as nat
    }
}

/// The `u32` that a text reads as: digits, with an optional plus sign before
/// them, whose value fits.
pub open spec fn parse_u32(s: Seq<char>) -> Option<u32> {
    let digits = if s.len() > 0 && s[0] == '+' {
        s.skip(1)
    } else {
        s
    };
    if is_numeral(digits) && numeral_value(digits) <= u32::MAX {
        Some(numeral_value(digits) as u32)
    } else {
        None
    }
}

/// The characters of `s` as a vector.
pub fn chars_of(s: &str) -> (out: Vec<char>)
    ensures
        out@ == s@,
{
    let mut out: Vec<char> = Vec::new();
    for c in it: s.chars()
        invariant
            it.seq() == s@,
            out@ == s@.take(it.index() as int),
    {
        out.push(c);
    }
    out
}

/// Whether `s` is blank.
pub fn blank(s: &str) -> (b: bool)
    ensures
        b == is_blank(s@),
{
    for c in it: s.chars()
        invariant
            it.seq() == s@,
            is_blank(s@.take(it.index() as int)),
    {
        if !is_whitespace(c) {
            assert(s@[it.index() as int] == c);
            return false;
        }
        assert(s@.take(it.index() + 1) =~= s@.take(it.index() as int).push(c));
    }
    assert(s@.take(s@.len() as int) =~= s@);
    true
}

/// Whether an optional text is missing or blank.
pub fn missing_or_blank(s: &Option<String>) -> (b: bool)
    ensures
        b == is_missing_or_blank(*s),
{
    match s {
        Some(t) => blank(t.as_str()),
        None => true,
    }
}

/// A copy of an optional text, empty when there is none.
pub fn copy_or_empty(s: &Option<String>) -> (out: String)
    ensures
        out@ == text_or_empty(*s),
{
    match s {
        Some(t) => t.clone(),
        None => String::new(),
    }
}

/// Whether two texts hold the same characters.
pub fn same_text(a: &str, b: &str) -> (same: bool)
    ensures
        same == (a@ == b@),
{
    let x: Vec<char> = chars_of(a);
    let y: Vec<char> = chars_of(b);
    if x.len() != y.len() {
        return false;
    }
    for i in 0..x.len()
        invariant
            x@ == a@,
            y@ == b@,
            x@.len() == y@.len(),
            forall|j: int| 0 <= j < i ==> x@[j] == y@[j],
    {
        if x[i] != y[i] {
            return false;
        }
    }
    assert(x@ =~= y@);
    true
}

/// What a place found by [`find_pair`] is: two equal characters stand there, and
/// nowhere before.
pub proof fn lemma_find_pair(s: Seq<char>, c: char)
    ensures
        match find_pair(s, c) {
            Some(i) => {
                &&& 0 <= i
                &&& i + 2 <= s.len()
                &&& s[i] == c
                &&& s[i + 1] == c
                &&& forall|j: int| 0 <= j < i ==> !(#[trigger] s[j] == c && s[j + 1] == c)
            },
            None => forall|j: int|
                0 <= j < s.len() - 1 ==> !(#[trigger] s[j] == c && s[j + 1] == c),
        },
    decreases s.len(),
{
    if s.len() >= 2 && !(s[0] == c && s[1] == c) {
        let tail = s.skip(1);
        lemma_find_pair(tail, c);
        match find_pair(tail, c) {
            Some(i) => {
                assert forall|j: int| 0 <= j < i + 1 implies !(#[trigger] s[j] == c && s[j + 1]
                    == c) by {
                    if j > 0 {
                        assert(tail[j - 1] == s[j]);
                        assert(tail[j] == s[j + 1]);
                    }
                }
            },
            None => {
                assert forall|j: int| 0 <= j < s.len() - 1 implies !(#[trigger] s[j] == c && s[j
                    + 1] == c) by {
                    if j > 0 {
                        assert(tail[j - 1] == s[j]);
                        assert(tail[j] == s[j + 1]);
                    }
                }
            },
        }
    }
}

/// Whether `c` stands twice in a row somewhere in `s`.
pub open spec fn has_pair(s: Seq<char>, c: char) -> bool {
    exists|j: int| 0 <= j < s.len() - 1 && #[trigger] s[j] == c && s[j + 1] == c
}

/// What stands before and after a pair.
pub proof fn lemma_around_pair(before: Seq<char>, after: Seq<char>, c: char)
    ensures
        (before + seq![c, c] + after).take(before.len() as int) == before,
        (before + seq![c, c] + after).skip(before.len() as int + 2) == after,
{
    let s = before + seq![c, c] + after;
    assert(s.take(before.len() as int) =~= before);
    assert(s.skip(before.len() as int + 2) =~= after);
}

/// A pair right after a text that neither holds a pair nor ends in half of one
/// is the first pair.
pub proof fn lemma_find_pair_after(before: Seq<char>, after: Seq<char>, c: char)
    requires
        !has_pair(before, c),
        before.len() > 0 ==> before.last() != c,
    ensures
        find_pair(before + seq![c, c] + after, c) == Some(before.len() as int),
{
    let s = before + seq![c, c] + after;
    let n = before.len() as int;
    lemma_find_pair(s, c);
    assert(s[n] == c && s[n + 1] == c);
    let i = find_pair(s, c)->0;
    if i < n {
        assert(s[i] == before[i]);
        if i + 1 < n {
            assert(s[i + 1] == before[i + 1]);
        }
    }
}

/// The texts of a sequence of strings.
pub open spec fn texts(v: Seq<String>) -> Seq<Seq<char>> {
    v.map_values(|t: String| t@)
}

/// The first place at or after `from` where `c` stands twice in a row.
pub(crate) fn find_pair_from(chars: &Vec<char>, from: usize, c: char) -> (found: Option<usize>)
    requires
        from <= chars@.len(),
    ensures
        match find_pair(chars@.skip(from as int), c) {
            Some(k) => found == Some((from + k) as usize) && 0 <= k && from + k + 2 <= chars@.len(),
            None => found is None,
        },
{
    proof {
        lemma_find_pair(chars@.skip(from as int), c);
    }
    let mut i: usize = from;
    while chars.len() - i >= 2
        invariant
            from <= i <= chars@.len(),
            find_pair(chars@.skip(from as int), c) == (match find_pair(chars@.skip(i as int), c) {
                Some(k) => Some(i - from + k),
                None => None,
            }),
        decreases chars@.len() - i,
    {
        if chars[i] == c && chars[i + 1] == c {
            return Some(i);
        }
        assert(chars@.skip(i as int).skip(1) =~= chars@.skip(i + 1));
        i = i + 1;
    }
    None
}

/// The bounds of what is left of `chars[from..to]` once the white space at its
/// two ends is taken away.
pub(crate) fn trim_bounds(chars: &Vec<char>, from: usize, to: usize) -> (bounds: (usize, usize))
    requires
        from <= to <= chars@.len(),
    ensures
        from <= bounds.0 <= bounds.1 <= to,
        chars@.subrange(bounds.0 as int, bounds.1 as int) == trim(
            chars@.subrange(from as int, to as int),
        ),
{
    let mut a: usize = from;
    let mut b: usize = to;
    let ghost all = chars@.subrange(from as int, to as int);
    while a < b && is_whitespace(chars[a])
        invariant
            from <= a <= b == to <= chars@.len(),
            all == chars@.subrange(from as int, to as int),
            trim_start(all) == trim_start(chars@.subrange(a as int, to as int)),
        decreases b - a,
    {
        assert(chars@.subrange(a as int, to as int).skip(1) =~= chars@.subrange(a + 1, to as int));
        a = a + 1;
    }
    assert(trim_start(all) == chars@.subrange(a as int, to as int)) by {
        reveal_with_fuel(trim_start, 2);
    }
    while a < b && is_whitespace(chars[b - 1])
        invariant
            from <= a <= b <= to <= chars@.len(),
            trim(all) == trim_end(chars@.subrange(a as int, b as int)),
        decreases b - a,
    {
        assert(chars@.subrange(a as int, b as int).drop_last() =~= chars@.subrange(
            a as int,
            b - 1,
        ));
        b = b - 1;
    }
    (a, b)
}

/// The pieces of `s` between the occurrences of `sep`.
pub fn split_text(s: &str, sep: char) -> (parts: Vec<String>)
    ensures
        texts(parts@) == split(s@, sep),
{
    let chars: Vec<char> = chars_of(s);
    let mut parts: Vec<String> = Vec::new();
    let mut start: usize = 0;
    assert(split(s@.take(0), sep) =~= texts(parts@).push(s@.subrange(0, 0))) by {
        assert(s@.take(0) =~= Seq::<char>::empty());
        assert(s@.subrange(0, 0) =~= Seq::<char>::empty());
    }
    for i in 0..chars.len()
        invariant
            chars@ == s@,
            0 <= start <= i,
            split(s@.take(i as int), sep) == texts(parts@).push(s@.subrange(start as int, i as int)),
    {
        assert(s@.take(i + 1).drop_last() =~= s@.take(i as int));
        if chars[i] == sep {
            let piece: String = s.substring_char(start, i).to_owned();
            let ghost before = parts@;
            parts.push(piece);
            start = i + 1;
            assert(texts(parts@) =~= texts(before).push(piece@));
            assert(s@.subrange(start as int, i + 1) =~= Seq::<char>::empty());
        } else {
            let ghost init = texts(parts@).push(s@.subrange(start as int, i as int));
            assert(init.drop_last() =~= texts(parts@));
            assert(s@.subrange(start as int, i + 1) =~= s@.subrange(start as int, i as int).push(
                s@[i as int],
            ));
        }
    }
    let piece: String = s.substring_char(start, chars.len()).to_owned();
    let ghost before = parts@;
    parts.push(piece);
    assert(texts(parts@) =~= texts(before).push(piece@));
    assert(s@.take(s@.len() as int) =~= s@);
    parts
}

/// `parts` one after the other with `sep` between neighbours.
pub fn join_texts(parts: &Vec<String>, sep: &str) -> (out: String)
    ensures
        out@ == join(texts(parts@), sep@),
{
    let mut out: String = String::new();
    assert(texts(parts@.take(0)) =~= Seq::<Seq<char>>::empty());
    for i in 0..parts.len()
        invariant
            out@ == join(texts(parts@.take(i as int)), sep@),
    {
        let ghost before = texts(parts@.take(i as int));
        let ghost after = texts(parts@.take(i + 1));
        assert(after.drop_last() =~= before);
        assert(after.last() == parts@[i as int]@);
        if i > 0 {
            out.append(sep);
        }
        out.append(parts[i].as_str());
        assert(out@ =~= join(after, sep@));
    }
    assert(parts@.take(parts@.len() as int) =~= parts@);
    out
}

/// Appends the numeral of one digit.
fn append_digit(out: &mut String, d: u64)
    requires
        d < 10,
    ensures
        final(out)@ == old(out)@.push(digit_char(d as nat)),
{
    proof {
        reveal_strlit("0");
        reveal_strlit("1");
        reveal_strlit("2");
        reveal_strlit("3");
        reveal_strlit("4");
        reveal_strlit("5");
        reveal_strlit("6");
        reveal_strlit("7");
        reveal_strlit("8");
        reveal_strlit("9");
    }
    let text: &str = match d {
        0 => "0",
        1 => "1",
        2 => "2",
        3 => "3",
        4 => "4",
        5 => "5",
        6 => "6",
        7 => "7",
        8 => "8",
        _ => "9",
    };
    assert(text@ =~= seq![digit_char(d as nat)]);
    out.append(text);
    assert(out@ =~= old(out)@.push(digit_char(d as nat)));
}

/// Appends the decimal numeral of `n`.
pub fn append_decimal(out: &mut String, n: u64)
    ensures
        final(out)@ == old(out)@ + decimal(n as nat),
    decreases n,
{
    if n >= 10 {
        append_decimal(out, n / 10);
    }
    let ghost before = out@;
    append_digit(out, n % 10);
    assert(out@ =~= old(out)@ + decimal(n as nat));
}

/// Appends the decimal numeral of `n`, with its minus sign when it has one.
pub fn append_signed_decimal(out: &mut String, n: i64)
    ensures
        final(out)@ == old(out)@ + signed_decimal(n as int),
{
    if n < 0 {
        proof {
            reveal_strlit("-");
        }
        assert("-"@ =~= seq!['-']);
        out.append("-");
        let magnitude: u64 = (-(n + 1)) as u64 + 1;
        append_decimal(out, magnitude);
        assert(out@ =~= old(out)@ + signed_decimal(n as int));
    } else {
        append_decimal(out, n as u64);
    }
}

/// The decimal numeral of `n`.
pub fn signed_decimal_text(n: i64) -> (out: String)
    ensures
        out@ == signed_decimal(n as int),
{
    let mut out: String = String::new();
    append_signed_decimal(&mut out, n);
    assert(out@ =~= signed_decimal(n as int));
    out
}

proof fn lemma_numeral_value_grows(s: Seq<char>, k: int)
    requires
        0 <= k <= s.len(),
        forall|i: int| 0 <= i < s.len() ==> is_digit(#[trigger] s[i]),
    ensures
        numeral_value(s.take(k)) <= numeral_value(s),
    decreases s.len() - k,
{
    if k == s.len() {
        assert(s.take(k) =~= s);
    } else {
        lemma_numeral_value_grows(s, k + 1);
        assert(s.take(k + 1).drop_last() =~= s.take(k));
    }
}

/// Reads a `u32` numeral.
pub fn read_u32(s: &str) -> (n: Option<u32>)
    ensures
        n == parse_u32(s@),
{
    let chars: Vec<char> = chars_of(s);
    let mut start: usize = 0;
    if chars.len() > 0 && chars[0] == '+' {
        start = 1;
    }
    let ghost digits = s@.skip(start as int);
    assert(start == 0 ==> digits =~= s@);
    if start == chars.len() {
        return None;
    }
    let mut acc: u64 = 0;
    for i in start..chars.len()
        invariant
            chars@ == s@,
            start <= i,
            start < s@.len(),
            digits == s@.skip(start as int),
            forall|j: int| 0 <= j < i - start ==> is_digit(#[trigger] digits[j]),
            acc == numeral_value(digits.take(i - start)),
            acc <= u32::MAX,
            parse_u32(s@) == (if is_numeral(digits) && numeral_value(digits) <= u32::MAX {
                Some(numeral_value(digits) as u32)
            } else {
                None::<u32>
            }),
    {
        let code: u32 = chars[i] as u32;
        assert(digits[i - start] == chars@[i as int]);
        if code < 48 || code > 57 {
            return None;
        }
        assert(digits.take(i - start + 1).drop_last() =~= digits.take(i - start));
        acc = 10 * acc + (code as u64 - 48);
        if acc > 4294967295 {
            proof {
                if is_numeral(digits) {
                    lemma_numeral_value_grows(digits, i - start + 1);
                }
            }
            return None;
        }
    }
    assert(digits.take(digits.len() as int) =~= digits);
    Some(acc as u32)
}

/// A decimal numeral reads back as the number it was written for.
pub proof fn lemma_decimal_reads_back(n: nat)
    ensures
        is_numeral(decimal(n)),
        numeral_value(decimal(n)) == n,
    decreases n,
{
    if n < 10 {
        assert(decimal(n).drop_last() =~= Seq::<char>::empty());
        assert(numeral_value(Seq::<char>::empty()) == 0);
    } else {
        lemma_decimal_reads_back(n / 10);
        assert(decimal(n).drop_last() =~= decimal(n / 10));
        assert forall|i: int| 0 <= i < decimal(n).len() implies is_digit(#[trigger] decimal(n)[i]) by {
            if i < decimal(n / 10).len() {
                assert(decimal(n)[i] == decimal(n / 10)[i]);
            }
        }
    }
}

/// Splitting a text without the separator gives the text itself.
pub proof fn lemma_split_without_separator(s: Seq<char>, sep: char)
    requires
        !s.contains(sep),
    ensures
        split(s, sep) == seq![s],
    decreases s.len(),
{
    if s.len() > 0 {
        assert(s.contains(s.last()));
        assert forall|c: char| s.drop_last().contains(c) implies s.contains(c) by {
            let i = choose|i: int| 0 <= i < s.drop_last().len() && s.drop_last()[i] == c;
            assert(s[i] == c);
        }
        lemma_split_without_separator(s.drop_last(), sep);
        assert(s.drop_last().push(s.last()) =~= s);
        assert(split(s, sep) =~= seq![s]);
    } else {
        assert(s =~= Seq::<char>::empty());
    }
}

/// There is at least one piece.
pub proof fn lemma_split_not_empty(s: Seq<char>, sep: char)
    ensures
        split(s, sep).len() > 0,
    decreases s.len(),
{
    if s.len() > 0 {
        lemma_split_not_empty(s.drop_last(), sep);
    }
}

/// Splitting two texts joined by the separator gives the pieces of both.
pub proof fn lemma_split_at_separator(a: Seq<char>, b: Seq<char>, sep: char)
    ensures
        split(a.push(sep) + b, sep) == split(a, sep) + split(b, sep),
    decreases b.len(),
{
    if b.len() == 0 {
        assert(a.push(sep) + b =~= a.push(sep));
        assert(a.push(sep).drop_last() =~= a);
        assert(split(a, sep) + split(b, sep) =~= split(a, sep).push(Seq::<char>::empty()));
    } else {
        let c = b.last();
        let whole = a.push(sep) + b;
        assert(whole.drop_last() =~= a.push(sep) + b.drop_last());
        assert(whole.last() == c);
        lemma_split_at_separator(a, b.drop_last(), sep);
        lemma_split_not_empty(b.drop_last(), sep);
        let init = split(b.drop_last(), sep);
        let joined = split(a, sep) + init;
        if c == sep {
            assert(joined.push(Seq::<char>::empty()) =~= split(a, sep) + init.push(
                Seq::<char>::empty(),
            ));
        } else {
            assert(joined.last() == init.last());
            assert(joined.drop_last().push(joined.last().push(c)) =~= split(a, sep)
                + init.drop_last().push(init.last().push(c)));
        }
    }
}

/// Among the ASCII characters, white space is the tab, the line breaks, the vertical tab,
/// the form feed and the space.
pub proof fn ascii_white_space(c: char)
    requires
        (c as u32) < 0x80,
    ensures
        is_whitespace_char(c) <==> c == '\t' || c == '\n' || c as u32 == 0x0b || c as u32 == 0x0c
            || c == '\r' || c == ' ',
{
}

/// A text that holds anything else than white space is not blank; the empty text is.
pub proof fn blank_texts_hold_white_space_only(s: Seq<char>)
    ensures
        is_blank(s) <==> !exists|i: int| 0 <= i < s.len() && !is_whitespace_char(#[trigger] s[i]),
        s.len() == 0 ==> is_blank(s),
        is_blank(s) <==> trim(s).len() == 0,
{
    let (before, after) = trimming_cuts_white_space_at_the_ends(s);
    if trim(s).len() > 0 {
        assert(s[before.len() as int] == trim(s)[0]);
    } else {
        assert forall|i: int| 0 <= i < s.len() implies is_whitespace_char(#[trigger] s[i]) by {
            if i < before.len() {
                assert(s[i] == before[i]);
            } else {
                assert(s[i] == after[i - before.len()]);
            }
        }
    }
}

/// Missing is blank, and a text that is there is missing or blank exactly when it is
/// blank.
pub proof fn missing_texts_are_blank(s: Option<String>)
    ensures
        s is None ==> is_missing_or_blank(s) && text_or_empty(s).len() == 0,
        s matches Some(t) ==> text_or_empty(s) == t@ && (is_missing_or_blank(s) <==> is_blank(t@)),
{
}

/// Trimming cuts white space from the two ends and nothing else, and leaves none there.
pub proof fn trimming_cuts_white_space_at_the_ends(s: Seq<char>) -> (cut: (Seq<char>, Seq<char>))
    ensures
        s == cut.0 + trim(s) + cut.1,
        forall|i: int| 0 <= i < cut.0.len() ==> is_whitespace_char(#[trigger] cut.0[i]),
        forall|i: int| 0 <= i < cut.1.len() ==> is_whitespace_char(#[trigger] cut.1[i]),
        trim(s).len() > 0 ==> !is_whitespace_char(trim(s)[0]) && !is_whitespace_char(
            trim(s).last(),
        ),
{
    let front = lemma_trim_start(s);
    let rest = trim_start(s);
    let back = lemma_trim_end(rest);
    assert(front + trim(s) + back =~= front + (trim(s) + back));
    if trim(s).len() > 0 {
        assert(rest[0] == trim(s)[0]);
    }
    (front, back)
}

proof fn lemma_trim_start(s: Seq<char>) -> (front: Seq<char>)
    ensures
        s == front + trim_start(s),
        forall|i: int| 0 <= i < front.len() ==> is_whitespace_char(#[trigger] front[i]),
        trim_start(s).len() > 0 ==> !is_whitespace_char(trim_start(s)[0]),
    decreases s.len(),
{
    if s.len() > 0 && is_whitespace_char(s[0]) {
        let rest = lemma_trim_start(s.skip(1));
        let front = seq![s[0]] + rest;
        assert(s =~= seq![s[0]] + s.skip(1));
        assert(s =~= front + trim_start(s));
        front
    } else {
        assert(s =~= Seq::<char>::empty() + s);
        Seq::empty()
    }
}

proof fn lemma_trim_end(s: Seq<char>) -> (back: Seq<char>)
    ensures
        s == trim_end(s) + back,
        forall|i: int| 0 <= i < back.len() ==> is_whitespace_char(#[trigger] back[i]),
        trim_end(s).len() > 0 ==> !is_whitespace_char(trim_end(s).last()),
    decreases s.len(),
{
    if s.len() > 0 && is_whitespace_char(s.last()) {
        let rest = lemma_trim_end(s.drop_last());
        let back = rest.push(s.last());
        assert(s =~= s.drop_last().push(s.last()));
        assert(s =~= trim_end(s) + back);
        back
    } else {
        assert(s =~= s + Seq::<char>::empty());
        Seq::empty()
    }
}

/// White space around a text that has none at its ends is trimmed off, and only that.
pub proof fn trimming_undoes_padding(before: Seq<char>, s: Seq<char>, after: Seq<char>)
    requires
        is_blank(before),
        is_blank(after),
        s.len() > 0,
        !is_whitespace_char(s[0]),
        !is_whitespace_char(s.last()),
    ensures
        trim(before + s + after) == s,
    decreases before.len() + after.len(),
{
    let whole = before + s + after;
    lemma_trim_start_of_padding(before, s + after);
    assert(before + (s + after) =~= whole);
    lemma_trim_end_of_padding(s, after);
}

proof fn lemma_trim_start_of_padding(before: Seq<char>, s: Seq<char>)
    requires
        is_blank(before),
        s.len() > 0,
        !is_whitespace_char(s[0]),
    ensures
        trim_start(before + s) == s,
    decreases before.len(),
{
    if before.len() == 0 {
        assert(before + s =~= s);
    } else {
        assert((before + s)[0] == before[0]);
        assert((before + s).skip(1) =~= before.skip(1) + s);
        assert(is_blank(before.skip(1))) by {
            assert forall|i: int| 0 <= i < before.skip(1).len() implies is_whitespace_char(
                #[trigger] before.skip(1)[i],
            ) by {
                assert(before.skip(1)[i] == before[i + 1]);
            }
        }
        lemma_trim_start_of_padding(before.skip(1), s);
    }
}

proof fn lemma_trim_end_of_padding(s: Seq<char>, after: Seq<char>)
    requires
        is_blank(after),
        s.len() > 0,
        !is_whitespace_char(s.last()),
    ensures
        trim_end(s + after) == s,
    decreases after.len(),
{
    if after.len() == 0 {
        assert(s + after =~= s);
    } else {
        assert((s + after).last() == after[after.len() - 1]);
        assert((s + after).drop_last() =~= s + after.drop_last());
        assert(is_blank(after.drop_last())) by {
            assert forall|i: int| 0 <= i < after.drop_last().len() implies is_whitespace_char(
                #[trigger] after.drop_last()[i],
            ) by {
                assert(after.drop_last()[i] == after[i]);
            }
        }
        lemma_trim_end_of_padding(s, after.drop_last());
    }
}

/// Joining puts the separator between neighbours, and nowhere else.
pub proof fn joining_separates_neighbours(
    parts: Seq<Seq<char>>,
    part: Seq<char>,
    sep: Seq<char>,
)
    ensures
        join(Seq::<Seq<char>>::empty(), sep).len() == 0,
        join(seq![part], sep) == part,
        parts.len() > 0 ==> join(parts.push(part), sep) == join(parts, sep) + sep + part,
{
    assert(parts.push(part).drop_last() =~= parts);
}

/// Splitting loses nothing: the pieces joined by the separator are the text again, and no
/// piece holds the separator.
pub proof fn splitting_undoes_joining(s: Seq<char>, sep: char)
    ensures
        join(split(s, sep), seq![sep]) == s,
        forall|i: int|
            0 <= i < split(s, sep).len() ==> !(#[trigger] split(s, sep)[i]).contains(sep),
    decreases s.len(),
{
    let parts = split(s, sep);
    if s.len() == 0 {
        assert(join(parts, seq![sep]) =~= s);
    } else {
        let init = split(s.drop_last(), sep);
        let c = s.last();
        splitting_undoes_joining(s.drop_last(), sep);
        lemma_split_not_empty(s.drop_last(), sep);
        assert(s =~= s.drop_last().push(c));
        if c == sep {
            joining_separates_neighbours(init, Seq::empty(), seq![sep]);
            assert(s.drop_last() + seq![sep] + Seq::<char>::empty() =~= s);
            assert(!Seq::<char>::empty().contains(sep));
        } else {
            let front = init.drop_last();
            let last = init.last();
            assert(init =~= front.push(last));
            assert(!init[init.len() - 1].contains(sep));
            assert(!last.push(c).contains(sep)) by {
                if last.push(c).contains(sep) {
                    let i = choose|i: int| 0 <= i < last.push(c).len() && last.push(c)[i] == sep;
                    assert(last[i] == sep);
                }
            }
            joining_separates_neighbours(front, last, seq![sep]);
            joining_separates_neighbours(front, last.push(c), seq![sep]);
            if front.len() == 0 {
                assert(init =~= seq![last]);
                assert(parts =~= seq![last.push(c)]);
            } else {
                assert(join(front, seq![sep]) + seq![sep] + last.push(c) =~= (join(
                    front,
                    seq![sep],
                ) + seq![sep] + last).push(c));
            }
            assert forall|i: int| 0 <= i < parts.len() implies !(#[trigger] parts[i]).contains(
                sep,
            ) by {
                if i < front.len() {
                    assert(parts[i] == init[i]);
                }
            }
        }
    }
}

/// A run of digits stands for a number in base ten, the last digit counting ones.
pub proof fn numerals_are_in_base_ten(s: Seq<char>, d: int)
    requires
        0 <= d < 10,
    ensures
        numeral_value(Seq::<char>::empty()) == 0,
        numeral_value(s.push((48 + d) as u32 as char)) == 10 * numeral_value(s) + d,
        is_digit((48 + d) as u32 as char),
        '0' as u32 == 48,
{
    let c = (48 + d) as u32 as char;
    assert(s.push(c).drop_last() =~= s);
    assert(c as u32 == 48 + d);
}

/// A decimal numeral has no leading zero, unless it is the zero alone.
pub proof fn decimals_have_no_leading_zero(n: nat)
    ensures
        decimal(n).len() > 0,
        decimal(n)[0] == '0' <==> n == 0,
        n == 0 ==> decimal(n).len() == 1,
    decreases n,
{
    if n >= 10 {
        decimals_have_no_leading_zero(n / 10);
        assert(decimal(n)[0] == decimal(n / 10)[0]);
    } else {
        assert(decimal(n)[0] == digit_char(n));
        assert(digit_char(n) as u32 == 48 + n);
    }
}

/// A negative number is written as its magnitude behind a minus sign, any other number as
/// its numeral; so different numbers are written differently.
pub proof fn signed_decimals_tell_numbers_apart(a: int, b: int)
    ensures
        a < 0 ==> signed_decimal(a) == seq!['-'] + decimal((-a) as nat),
        a >= 0 ==> signed_decimal(a) == decimal(a as nat),
        signed_decimal(a) == signed_decimal(b) ==> a == b,
{
    if a >= 0 {
        lemma_decimal_reads_back(a as nat);
        assert(is_digit(decimal(a as nat)[0]));
    } else {
        lemma_decimal_reads_back((-a) as nat);
        assert(signed_decimal(a)[0] == '-');
        assert(signed_decimal(a).skip(1) =~= decimal((-a) as nat));
    }
    if b >= 0 {
        lemma_decimal_reads_back(b as nat);
        assert(is_digit(decimal(b as nat)[0]));
    } else {
        lemma_decimal_reads_back((-b) as nat);
        assert(signed_decimal(b)[0] == '-');
        assert(signed_decimal(b).skip(1) =~= decimal((-b) as nat));
    }
}

/// A numeral that fits reads as its number, with or without a plus sign before it; one
/// that does not fit is refused.
pub proof fn numerals_read_back(n: nat)
    ensures
        n <= u32::MAX ==> parse_u32(decimal(n)) == Some(n as u32) && parse_u32(
            seq!['+'] + decimal(n),
        ) == Some(n as u32),
        n > u32::MAX ==> parse_u32(decimal(n)) is None,
{
    lemma_decimal_reads_back(n);
    assert(is_digit(decimal(n)[0]));
    assert((seq!['+'] + decimal(n)).skip(1) =~= decimal(n));
}

/// What reads as a number holds digits only, apart from one leading plus sign, and at
/// least one of them.
pub proof fn only_digits_read_as_numbers(s: Seq<char>)
    requires
        parse_u32(s) is Some,
    ensures
        s.len() > 0,
        forall|i: int|
            0 < i < s.len() ==> 48 <= #[trigger] s[i] as u32 <= 57,
        s[0] == '+' && s.len() > 1 || 48 <= s[0] as u32 <= 57,
{
    if s[0] == '+' && s.len() > 0 {
        assert forall|i: int| 0 < i < s.len() implies 48 <= #[trigger] s[i] as u32 <= 57 by {
            assert(is_digit(s.skip(1)[i - 1]));
        }
    } else {
        assert forall|i: int| 0 <= i < s.len() implies 48 <= #[trigger] s[i] as u32 <= 57 by {
            assert(is_digit(s[i]));
        }
    }
}

/// There is one piece more than there are separators.
pub proof fn splitting_counts_the_separators(s: Seq<char>, sep: char)
    ensures
        split(s, sep).len() == 1 + s.filter(|c: char| c == sep).len(),
    decreases s.len(),
{
    reveal(Seq::filter);
    if s.len() > 0 {
        splitting_counts_the_separators(s.drop_last(), sep);
        lemma_split_not_empty(s.drop_last(), sep);
    }
}

} // verus!
