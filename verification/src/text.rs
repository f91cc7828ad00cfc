//! Text as sequences of characters: splitting, searching, trimming, numbers.
use vstd::prelude::*;
use vstd::string::*;

verus! {

/// The characters of `s`, in order.
pub fn chars_of(s: &str) -> (chars: Vec<char>)
    ensures
        chars@ == s@,
{
    let mut chars: Vec<char> = Vec::new();
    for c in it: s.chars()
        invariant
            chars@ == it.seq().take(it.index()),
            it.seq() == s@,
    {
        proof {
            assert(it.seq().take(it.index()).push(c) =~= it.seq().take(it.index() + 1));
        }
        chars.push(c);
    }
    assert(s@.take(s@.len() as int) =~= s@);
    chars
}

/// Whether two texts hold the same characters.
pub fn same_text(a: &str, b: &str) -> (same: bool)
    ensures
        same == (a@ == b@),
{
    let x: Vec<char> = chars_of(a);
    let y: Vec<char> = chars_of(b);
    same_chars(&x, &y)
}

/// Whether two character lists are equal.
pub fn same_chars(a: &Vec<char>, b: &Vec<char>) -> (same: bool)
    ensures
        same == (a@ == b@),
{
    if a.len() != b.len() {
        return false;
    }
    let mut i: usize = 0;
    while i < a.len()
        invariant
            a.len() == b.len(),
            i <= a.len(),
            forall|j: int| 0 <= j < i ==> a@[j] == b@[j],
        decreases a.len() - i,
    {
        if a[i] != b[i] {
            return false;
        }
        i += 1;
    }
    assert(a@ =~= b@);
    true
}

/// The pieces of `s` between the occurrences of `sep`; there is always at least one.
pub open spec fn segments(s: Seq<char>, sep: char) -> Seq<Seq<char>>
    decreases s.len(),
{
    if s.len() == 0 {
        seq![Seq::empty()]
    } else {
        let front = segments(s.drop_last(), sep);
        if s.last() == sep {
            front.push(Seq::empty())
        } else {
            front.update(front.len() - 1, front.last().push(s.last()))
        }
    }
}

/// There is always a piece.
pub proof fn lemma_segments_nonempty(s: Seq<char>, sep: char)
    ensures
        segments(s, sep).len() >= 1,
    decreases s.len(),
{
    if s.len() > 0 {
        lemma_segments_nonempty(s.drop_last(), sep);
    }
}

/// The character sequences of a list of character lists.
pub open spec fn char_lists(v: Seq<Vec<char>>) -> Seq<Seq<char>> {
    v.map_values(|x: Vec<char>| x@)
}

/// Cuts `s` at every `sep`.
pub fn split(s: &Vec<char>, sep: char) -> (pieces: Vec<Vec<char>>)
    ensures
        char_lists(pieces@) == segments(s@, sep),
{
    let mut pieces: Vec<Vec<char>> = Vec::new();
    let mut piece: Vec<char> = Vec::new();
    let mut i: usize = 0;
    assert(s@.take(0) =~= Seq::empty());
    assert(char_lists(pieces@).push(piece@) =~= segments(s@.take(0), sep));
    while i < s.len()
        invariant
            i <= s.len(),
            char_lists(pieces@).push(piece@) == segments(s@.take(i as int), sep),
        decreases s.len() - i,
    {
        let ghost before = char_lists(pieces@);
        let ghost tail = piece@;
        let ghost prefix = s@.take(i as int);
        proof {
            assert(s@.take(i + 1).drop_last() =~= prefix);
        }
        if s[i] == sep {
            pieces.push(piece);
            piece = Vec::new();
            proof {
                assert(char_lists(pieces@) =~= before.push(tail));
                assert(char_lists(pieces@).push(piece@) =~= segments(s@.take(i + 1), sep));
            }
        } else {
            piece.push(s[i]);
            proof {
                assert(before.push(tail).last() == tail);
                assert(char_lists(pieces@).push(piece@) =~= segments(s@.take(i + 1), sep));
            }
        }
        i += 1;
    }
    assert(s@.take(s@.len() as int) =~= s@);
    let ghost before = char_lists(pieces@);
    let ghost tail = piece@;
    pieces.push(piece);
    assert(char_lists(pieces@) =~= before.push(tail));
    pieces
}

/// A copy of the characters of `s` from `from` up to, and without, `to`.
pub fn slice_of(s: &Vec<char>, from: usize, to: usize) -> (piece: Vec<char>)
    requires
        from <= to <= s.len(),
    ensures
        piece@ == s@.subrange(from as int, to as int),
{
    let mut piece: Vec<char> = Vec::new();
    let mut i: usize = from;
    while i < to
        invariant
            from <= i <= to <= s.len(),
            piece@ == s@.subrange(from as int, i as int),
        decreases to - i,
    {
        piece.push(s[i]);
        i += 1;
        assert(piece@ =~= s@.subrange(from as int, i as int));
    }
    piece
}

/// Where `pat` first occurs in `s` at or after `from`.
pub open spec fn find_from(s: Seq<char>, pat: Seq<char>, from: int) -> Option<int>
    decreases s.len() - from + 1,
{
    if from < 0 || from + pat.len() > s.len() {
        None
    } else if s.subrange(from, from + pat.len()) == pat {
        Some(from)
    } else {
        find_from(s, pat, from + 1)
    }
}

/// Whether `pat` stands in `s` at `at`.
pub fn stands_at(s: &Vec<char>, pat: &Vec<char>, at: usize) -> (yes: bool)
    requires
        at + pat.len() <= s.len(),
    ensures
        yes == (s@.subrange(at as int, at + pat.len()) == pat@),
{
    let piece: Vec<char> = slice_of(s, at, at + pat.len());
    same_chars(&piece, pat)
}

/// The first place of `pat` in `s`.
pub fn find(s: &Vec<char>, pat: &Vec<char>) -> (place: Option<usize>)
    ensures
        match place {
            Some(i) => find_from(s@, pat@, 0) == Some(i as int) && i + pat.len() <= s.len(),
            None => find_from(s@, pat@, 0) is None,
        },
{
    if pat.len() > s.len() {
        return None;
    }
    let mut i: usize = 0;
    while i <= s.len() - pat.len()
        invariant
            pat.len() <= s.len(),
            i <= s.len() - pat.len() + 1,
            find_from(s@, pat@, 0) == find_from(s@, pat@, i as int),
        decreases s.len() - pat.len() + 1 - i,
    {
        if stands_at(s, pat, i) {
            return Some(i);
        }
        if i == s.len() - pat.len() {
            assert(find_from(s@, pat@, i + 1) is None);
            return None;
        }
        i += 1;
    }
    None
}

/// Whether `s` begins with `pat`.
pub open spec fn begins_with(s: Seq<char>, pat: Seq<char>) -> bool {
    pat.len() <= s.len() && s.take(pat.len() as int) == pat
}

/// Whether `s` begins with `pat`, decided.
pub fn has_prefix(s: &Vec<char>, pat: &Vec<char>) -> (yes: bool)
    ensures
        yes == begins_with(s@, pat@),
{
    pat.len() <= s.len() && stands_at(s, pat, 0)
}

/// The characters with the Unicode property White_Space.
pub open spec fn is_space(c: char) -> bool {
    let u = c as u32;
    ||| 0x9 <= u <= 0xd
    ||| u == 0x20
    ||| u == 0x85
    ||| u == 0xa0
    ||| u == 0x1680
    ||| 0x2000 <= u <= 0x200a
    ||| u == 0x2028
    ||| u == 0x2029
    ||| u == 0x202f
    ||| u == 0x205f
    ||| u == 0x3000
}

/// Whether `c` is white space.
pub fn space(c: char) -> (yes: bool)
    ensures
        yes == is_space(c),
{
    let u: u32 = c as u32;
    (0x9 <= u && u <= 0xd) || u == 0x20 || u == 0x85 || u == 0xa0 || u == 0x1680 || (0x2000 <= u
        && u <= 0x200a) || u == 0x2028 || u == 0x2029 || u == 0x202f || u == 0x205f || u == 0x3000
}

/// `s` without the white space at its front.
pub open spec fn trimmed_front(s: Seq<char>) -> Seq<char>
    decreases s.len(),
{
    if s.len() > 0 && is_space(s[0]) {
        trimmed_front(s.drop_first())
    } else {
        s
    }
}

/// `s` without the white space at its back.
pub open spec fn trimmed_back(s: Seq<char>) -> Seq<char>
    decreases s.len(),
{
    if s.len() > 0 && is_space(s.last()) {
        trimmed_back(s.drop_last())
    } else {
        s
    }
}

/// `s` without the white space at its two ends.
pub open spec fn trimmed(s: Seq<char>) -> Seq<char> {
    trimmed_back(trimmed_front(s))
}

/// Takes the white space off the two ends of `s`.
pub fn trim(s: &Vec<char>) -> (t: Vec<char>)
    ensures
        t@ == trimmed(s@),
{
    let n: usize = s.len();
    let mut a: usize = 0;
    assert(s@.skip(0) =~= s@);
    while a < n && space(s[a])
        invariant
            a <= n == s.len(),
            trimmed_front(s@) == trimmed_front(s@.skip(a as int)),
        decreases n - a,
    {
        assert(s@.skip(a as int).drop_first() =~= s@.skip(a + 1));
        a += 1;
    }
    let ghost front = s@.skip(a as int);
    let mut b: usize = n;
    assert(s@.subrange(a as int, n as int) =~= front);
    while b > a && space(s[b - 1])
        invariant
            a <= b <= n == s.len(),
            front == s@.skip(a as int),
            trimmed_back(front) == trimmed_back(s@.subrange(a as int, b as int)),
        decreases b,
    {
        assert(s@.subrange(a as int, b as int).drop_last() =~= s@.subrange(a as int, b - 1));
        b -= 1;
    }
    slice_of(s, a, b)
}

/// Whether `c` is a decimal digit.
pub open spec fn is_digit(c: char) -> bool {
    '0' <= c <= '9'
}

/// Whether `s` is one or more decimal digits.
pub open spec fn all_digits(s: Seq<char>) -> bool {
    s.len() > 0 && forall|i: int| 0 <= i < s.len() ==> is_digit(#[trigger] s[i])
}

/// The number that a run of decimal digits stands for.
pub open spec fn digits_value(s: Seq<char>) -> nat
    decreases s.len(),
{
    if s.len() == 0 {
        0
    } else {
        digits_value(s.drop_last()) * 10 + (s.last() as nat - '0' as nat) as nat
    }
}

/// The decimal text of `n`.
pub open spec fn decimal(n: nat) -> Seq<char>
    decreases n,
{
    if n < 10 {
        seq![(('0' as nat) + n) as char]
    } else {
        decimal(n / 10).push((('0' as nat) + n % 10) as char)
    }
}

/// Decimal text is digits only and stands for the number it was made from.
pub proof fn lemma_decimal(n: nat)
    ensures
        all_digits(decimal(n)),
        digits_value(decimal(n)) == n,
    decreases n,
{
    if n < 10 {
        let c = (('0' as nat) + n) as char;
        assert(decimal(n) =~= seq![c]);
        assert(decimal(n).drop_last() =~= Seq::<char>::empty());
        assert(digits_value(Seq::<char>::empty()) == 0);
    } else {
        lemma_decimal(n / 10);
        assert(decimal(n).drop_last() =~= decimal(n / 10));
    }
}

/// Values of digit runs grow with every digit.
proof fn lemma_digits_value_grows(s: Seq<char>, k: int)
    requires
        0 <= k <= s.len(),
    ensures
        digits_value(s.take(k)) <= digits_value(s),
    decreases s.len() - k,
{
    if k < s.len() {
        lemma_digits_value_grows(s, k + 1);
        assert(s.take(k + 1).drop_last() =~= s.take(k));
    } else {
        assert(s.take(k) =~= s);
    }
}

/// The value of a decimal digit.
fn digit_of(c: char) -> (d: Option<u64>)
    ensures
        match d {
            Some(v) => is_digit(c) && v == c as nat - '0' as nat && v < 10,
            None => !is_digit(c),
        },
{
    match c {
        '0' => Some(0),
        '1' => Some(1),
        '2' => Some(2),
        '3' => Some(3),
        '4' => Some(4),
        '5' => Some(5),
        '6' => Some(6),
        '7' => Some(7),
        '8' => Some(8),
        '9' => Some(9),
        _ => None,
    }
}

/// The value of the digits of `s` from `from` on, where there is one and it is at most `max`.
pub fn digits_from(s: &Vec<char>, from: usize, max: u64) -> (value: Option<u64>)
    requires
        from <= s.len(),
    ensures
        match value {
            Some(v) => all_digits(s@.skip(from as int)) && v == digits_value(s@.skip(from as int))
                && v <= max,
            None => !all_digits(s@.skip(from as int)) || digits_value(s@.skip(from as int)) > max,
        },
{
    let ghost t = s@.skip(from as int);
    if from == s.len() {
        return None;
    }
    let mut value: u64 = 0;
    let mut i: usize = from;
    while i < s.len()
        invariant
            from <= i <= s.len(),
            from < s.len(),
            t == s@.skip(from as int),
            value <= max,
            forall|j: int| 0 <= j < i - from ==> is_digit(#[trigger] t[j]),
            value == digits_value(t.take(i - from)),
        decreases s.len() - i,
    {
        let c: char = s[i];
        assert(c == t[i - from]);
        let d: u64 = match digit_of(c) {
            Some(d) => d,
            None => {
                assert(!is_digit(t[i - from]));
                return None;
            },
        };
        proof {
            assert(t.take(i - from + 1).drop_last() =~= t.take(i - from));
            lemma_digits_value_grows(t, i - from + 1);
        }
        if value > (u64::MAX - d) / 10 {
            return None;
        }
        let next: u64 = value * 10 + d;
        if next > max {
            return None;
        }
        value = next;
        i += 1;
    }
    assert(t.take(s.len() - from) =~= t);
    Some(value)
}

/// The signed number that `s` stands for: an optional sign, then digits, within 64 bits.
pub open spec fn signed_value(s: Seq<char>) -> Option<i64> {
    if s.len() > 0 && s[0] == '-' {
        if all_digits(s.drop_first()) && digits_value(s.drop_first()) <= 0x8000_0000_0000_0000 {
            Some((-(digits_value(s.drop_first()) as int)) as i64)
        } else {
            None
        }
    } else {
        let digits = if s.len() > 0 && s[0] == '+' {
            s.drop_first()
        } else {
            s
        };
        if all_digits(digits) && digits_value(digits) <= 0x7fff_ffff_ffff_ffff {
            Some(digits_value(digits) as i64)
        } else {
            None
        }
    }
}

/// Reads a signed decimal number.
pub fn parse_signed(s: &Vec<char>) -> (value: Option<i64>)
    ensures
        value == signed_value(s@),
{
    proof {
        assert(s@.skip(0) =~= s@);
        if s@.len() > 0 {
            assert(s@.skip(1) =~= s@.drop_first());
        }
    }
    if s.len() > 0 && s[0] == '-' {
        match digits_from(s, 1, 0x8000_0000_0000_0000) {
            Some(v) => {
                if v == 0x8000_0000_0000_0000 {
                    Some(i64::MIN)
                } else {
                    Some(-(v as i64))
                }
            },
            None => None,
        }
    } else if s.len() > 0 && s[0] == '+' {
        match digits_from(s, 1, 0x7fff_ffff_ffff_ffff) {
            Some(v) => Some(v as i64),
            None => None,
        }
    } else {
        match digits_from(s, 0, 0x7fff_ffff_ffff_ffff) {
            Some(v) => Some(v as i64),
            None => None,
        }
    }
}

/// The number that `s` stands for: an optional plus sign, then digits, within 32 bits.
pub open spec fn unsigned_value(s: Seq<char>) -> Option<u32> {
    let digits = if s.len() > 0 && s[0] == '+' {
        s.drop_first()
    } else {
        s
    };
    if all_digits(digits) && digits_value(digits) <= 0xffff_ffff {
        Some(digits_value(digits) as u32)
    } else {
        None
    }
}

/// Reads an unsigned 32-bit decimal number.
pub fn parse_unsigned(s: &Vec<char>) -> (value: Option<u32>)
    ensures
        value == unsigned_value(s@),
{
    proof {
        assert(s@.skip(0) =~= s@);
        if s@.len() > 0 {
            assert(s@.skip(1) =~= s@.drop_first());
        }
    }
    let from: usize = if s.len() > 0 && s[0] == '+' {
        1
    } else {
        0
    };
    match digits_from(s, from, 0xffff_ffff) {
        Some(v) => Some(v as u32),
        None => None,
    }
}

/// One decimal digit as text.
fn digit_text(d: u64) -> (t: &'static str)
    requires
        d < 10,
    ensures
        t@ == seq![(('0' as nat) + d) as char],
{
    proof {
        reveal_strlit("0");
        reveal_strlit("1");
        reveal_strlit("2");
        reveal_strlit("3");
        reveal_strlit("4");
        reveal_strlit("5");
        reveal_strlit("6");
        reveal_strlit("7");
        reveal_strlit("8");
        reveal_strlit("9");
    }
    match d {
        0 => "0",
        1 => "1",
        2 => "2",
        3 => "3",
        4 => "4",
        5 => "5",
        6 => "6",
        7 => "7",
        8 => "8",
        _ => "9",
    }
}

/// Writes a number in decimal.
pub fn decimal_text(n: u64) -> (t: String)
    ensures
        t@ == decimal(n as nat),
    decreases n,
{
    if n < 10 {
        digit_text(n).to_owned()
    } else {
        let mut t: String = decimal_text(n / 10);
        t.append(digit_text(n % 10));
        assert(t@ =~= decimal(n as nat));
        t
    }
}

/// Text with no white space at its ends is left as it is by trimming.
pub proof fn lemma_trimmed_solid(s: Seq<char>)
    requires
        s.len() > 0 ==> !is_space(s[0]) && !is_space(s.last()),
    ensures
        trimmed(s) == s,
{
}

/// Behind digits, the first dash is found right after them.
pub proof fn lemma_find_dash(a: Seq<char>, b: Seq<char>, from: int)
    requires
        all_digits(a),
        0 <= from <= a.len(),
    ensures
        find_from(a + "-"@ + b, "-"@, from) == Some(a.len() as int),
    decreases a.len() - from,
{
    reveal_strlit("-");
    let s = a + "-"@ + b;
    let here = s.subrange(from, from + 1);
    if from == a.len() {
        assert(here =~= "-"@);
    } else {
        assert(here[0] == a[from]);
        assert("-"@[0] == '-');
        assert(is_digit(a[from]));
        assert(here != "-"@);
        lemma_find_dash(a, b, from + 1);
    }
}

/// Digits that fit are read as the number they stand for.
pub proof fn lemma_signed_digits(s: Seq<char>)
    requires
        all_digits(s),
        digits_value(s) <= i64::MAX,
    ensures
        signed_value(s) == Some(digits_value(s) as i64),
        !is_space(s[0]),
        !is_space(s.last()),
{
    assert(is_digit(s[0]));
    assert(is_digit(s[s.len() - 1]));
}

/// Cutting text at a separator gives what cutting the parts before and behind it gives.
pub proof fn law_cut_at_a_separator(a: Seq<char>, b: Seq<char>, sep: char)
    ensures
        segments(a + seq![sep] + b, sep) == segments(a, sep) + segments(b, sep),
    decreases b.len(),
{
    let s = a + seq![sep] + b;
    lemma_segments_nonempty(a, sep);
    lemma_segments_nonempty(b, sep);
    if b.len() == 0 {
        assert(s.drop_last() =~= a);
        assert(segments(s, sep) =~= segments(a, sep) + segments(b, sep));
    } else {
        let rest = b.drop_last();
        law_cut_at_a_separator(a, rest, sep);
        lemma_segments_nonempty(rest, sep);
        assert(s.drop_last() =~= a + seq![sep] + rest);
        assert(s.last() == b.last());
        let front = segments(a, sep) + segments(rest, sep);
        assert(front.last() == segments(rest, sep).last());
        assert(segments(s, sep) =~= segments(a, sep) + segments(b, sep));
    }
}

/// Text without the separator is one piece.
pub proof fn law_uncut_without_separator(s: Seq<char>, sep: char)
    requires
        !s.contains(sep),
    ensures
        segments(s, sep) == seq![s],
    decreases s.len(),
{
    if s.len() > 0 {
        let front = s.drop_last();
        assert forall|c: char| front.contains(c) implies s.contains(c) by {
            let i = choose|i: int| 0 <= i < front.len() && front[i] == c;
            assert(s[i] == c);
        }
        law_uncut_without_separator(front, sep);
        assert(s[s.len() - 1] == s.last());
        assert(front.push(s.last()) =~= s);
        assert(segments(s, sep) =~= seq![s]);
    } else {
        assert(s =~= Seq::<char>::empty());
    }
}

/// A place that is found is the first at which the pattern stands, and where none is found it stands
/// nowhere.
pub proof fn law_first_place_is_found(s: Seq<char>, pat: Seq<char>, from: int)
    requires
        0 <= from,
    ensures
        match find_from(s, pat, from) {
            Some(i) => from <= i <= s.len() - pat.len() && s.subrange(i, i + pat.len()) == pat
                && forall|j: int| from <= j < i ==> #[trigger] s.subrange(j, j + pat.len()) != pat,
            None => forall|j: int|
                from <= j <= s.len() - pat.len() ==> #[trigger] s.subrange(j, j + pat.len()) != pat,
        },
    decreases s.len() - from + 1,
{
    if from + pat.len() <= s.len() && s.subrange(from, from + pat.len()) != pat {
        law_first_place_is_found(s, pat, from + 1);
    }
}

/// Whether text is white space only.
pub open spec fn all_space(s: Seq<char>) -> bool {
    forall|i: int| 0 <= i < s.len() ==> is_space(#[trigger] s[i])
}

proof fn lemma_trimmed_front_skips(front: Seq<char>, s: Seq<char>)
    requires
        all_space(front),
    ensures
        trimmed_front(front + s) == trimmed_front(s),
    decreases front.len(),
{
    if front.len() > 0 {
        let rest = front.drop_first();
        assert(is_space(front[0]));
        assert((front + s)[0] == front[0]);
        assert((front + s).drop_first() =~= rest + s);
        assert forall|i: int| 0 <= i < rest.len() implies is_space(#[trigger] rest[i]) by {
            assert(rest[i] == front[i + 1]);
        }
        lemma_trimmed_front_skips(rest, s);
    } else {
        assert(front + s =~= s);
    }
}

proof fn lemma_trimmed_back_skips(s: Seq<char>, back: Seq<char>)
    requires
        all_space(back),
    ensures
        trimmed_back(s + back) == trimmed_back(s),
    decreases back.len(),
{
    if back.len() > 0 {
        let rest = back.drop_last();
        assert(is_space(back[back.len() - 1]));
        assert((s + back).last() == back.last());
        assert((s + back).drop_last() =~= s + rest);
        assert forall|i: int| 0 <= i < rest.len() implies is_space(#[trigger] rest[i]) by {
            assert(rest[i] == back[i]);
        }
        lemma_trimmed_back_skips(s, rest);
    } else {
        assert(s + back =~= s);
    }
}

/// White space around text that has none at its ends is taken off, and nothing else is.
pub proof fn law_space_is_trimmed(front: Seq<char>, s: Seq<char>, back: Seq<char>)
    requires
        all_space(front),
        all_space(back),
        s.len() > 0 ==> !is_space(s[0]) && !is_space(s.last()),
    ensures
        trimmed(front + s + back) == s,
{
    assert(front + s + back =~= front + (s + back));
    lemma_trimmed_front_skips(front, s + back);
    if s.len() > 0 {
        assert((s + back)[0] == s[0]);
        assert(trimmed_front(s + back) == s + back);
        lemma_trimmed_back_skips(s, back);
    } else {
        assert(s + back =~= back + s);
        lemma_trimmed_front_skips(back, s);
        assert(trimmed(front + s + back) =~= s);
    }
}

/// Blanks, tabs and ends of lines are white space; digits, letters and punctuation are not.
pub proof fn law_what_is_space(c: char)
    ensures
        c == ' ' || c == '\t' || c == '\n' || c == '\r' ==> is_space(c),
        '!' <= c <= '~' ==> !is_space(c),
{
}

/// A number is written without zeros in front.
pub proof fn law_decimal_is_shortest(n: nat)
    ensures
        n > 0 ==> decimal(n)[0] != '0',
        n < 10 ==> decimal(n).len() == 1,
        n >= 10 ==> decimal(n).len() == decimal(n / 10).len() + 1,
    decreases n,
{
    if n >= 10 {
        law_decimal_is_shortest(n / 10);
        lemma_decimal(n / 10);
        assert(decimal(n)[0] == decimal(n / 10)[0]);
    }
}

proof fn lemma_zero_in_front(s: Seq<char>)
    ensures
        digits_value(seq!['0'] + s) == digits_value(s),
    decreases s.len(),
{
    let t = seq!['0'] + s;
    if s.len() == 0 {
        assert(t.drop_last() =~= Seq::<char>::empty());
        assert(digits_value(Seq::<char>::empty()) == 0);
        assert(t.last() == '0');
    } else {
        assert(t.drop_last() =~= seq!['0'] + s.drop_last());
        assert(t.last() == s.last());
        lemma_zero_in_front(s.drop_last());
    }
}

/// Zeros in front of a number make no difference, and each digit behind it is worth a tenth of the one
/// before.
pub proof fn law_digits_are_decimal(n: nat, s: Seq<char>, d: nat)
    requires
        d < 10,
    ensures
        digits_value(Seq::<char>::empty()) == 0,
        digits_value(decimal(n)) == n,
        digits_value(seq!['0'] + s) == digits_value(s),
        digits_value(s + decimal(d)) == 10 * digits_value(s) + d,
{
    lemma_decimal(n);
    lemma_zero_in_front(s);
    let t = s + decimal(d);
    assert(t.drop_last() =~= s);
    assert(t.last() == (('0' as nat) + d) as char);
}

/// Digits are read as their number where it fits 64 bits, with a sign in front or without, zeros in front
/// or not; beyond 64 bits they are not read, nor is text that is no number.
pub proof fn law_signed_numbers_are_read(digits: Seq<char>, s: Seq<char>)
    requires
        forall|i: int| 0 <= i < digits.len() ==> '0' <= #[trigger] digits[i] <= '9',
    ensures
        digits.len() > 0 && digits_value(digits) <= i64::MAX ==> signed_value(digits) == Some(
            digits_value(digits) as i64,
        ) && signed_value(seq!['+'] + digits) == Some(digits_value(digits) as i64) && signed_value(
            seq!['-'] + digits,
        ) == Some((0 - digits_value(digits)) as i64),
        digits_value(digits) > i64::MAX ==> signed_value(digits) is None && signed_value(
            seq!['+'] + digits,
        ) is None,
        digits_value(digits) > i64::MAX + 1 ==> signed_value(seq!['-'] + digits) is None,
        s.len() == 0 ==> signed_value(s) is None,
        s.len() > 0 && !is_digit(s.last()) ==> signed_value(s) is None,
        (exists|i: int| 1 <= i < s.len() && !is_digit(#[trigger] s[i])) ==> signed_value(s) is None,
        s.len() > 0 && !is_digit(s[0]) && s[0] != '+' && s[0] != '-' ==> signed_value(s) is None,
{
    if digits.len() > 0 {
        assert(all_digits(digits));
        assert('0' <= digits[0] <= '9');
    }
    assert((seq!['+'] + digits).drop_first() =~= digits);
    assert((seq!['-'] + digits).drop_first() =~= digits);
    if exists|i: int| 1 <= i < s.len() && !is_digit(#[trigger] s[i]) {
        let i = choose|i: int| 1 <= i < s.len() && !is_digit(#[trigger] s[i]);
        assert(s.drop_first()[i - 1] == s[i]);
    }
    if s.len() > 0 && !is_digit(s.last()) {
        assert(s[s.len() - 1] == s.last());
        if s.len() > 1 {
            assert(s.drop_first()[s.len() - 2] == s.last());
        }
    }
}

/// Digits are read as their number where it fits 32 bits, with a plus sign in front or without, zeros in
/// front or not; beyond 32 bits they are not read, nor is text that is no number.
pub proof fn law_unsigned_numbers_are_read(digits: Seq<char>, s: Seq<char>)
    requires
        forall|i: int| 0 <= i < digits.len() ==> '0' <= #[trigger] digits[i] <= '9',
    ensures
        digits.len() > 0 && digits_value(digits) <= u32::MAX ==> unsigned_value(digits) == Some(
            digits_value(digits) as u32,
        ) && unsigned_value(seq!['+'] + digits) == Some(digits_value(digits) as u32),
        digits_value(digits) > u32::MAX ==> unsigned_value(digits) is None && unsigned_value(
            seq!['+'] + digits,
        ) is None,
        s.len() == 0 ==> unsigned_value(s) is None,
        (exists|i: int| 1 <= i < s.len() && !is_digit(#[trigger] s[i])) ==> unsigned_value(s) is None,
        s.len() > 0 && !is_digit(s[0]) && s[0] != '+' ==> unsigned_value(s) is None,
{
    if digits.len() > 0 {
        assert(all_digits(digits));
        assert('0' <= digits[0] <= '9');
    }
    assert((seq!['+'] + digits).drop_first() =~= digits);
    if exists|i: int| 1 <= i < s.len() && !is_digit(#[trigger] s[i]) {
        let i = choose|i: int| 1 <= i < s.len() && !is_digit(#[trigger] s[i]);
        assert(s.drop_first()[i - 1] == s[i]);
    }
}

/// Text begins with its front, and with nothing that is not its front.
pub proof fn law_begins_with_its_front(a: Seq<char>, b: Seq<char>, s: Seq<char>)
    ensures
        begins_with(a + b, a),
        begins_with(s, a) ==> s == a + s.skip(a.len() as int),
{
    assert((a + b).take(a.len() as int) =~= a);
    if begins_with(s, a) {
        assert(s =~= s.take(a.len() as int) + s.skip(a.len() as int));
    }
}

/// Of the characters beyond ASCII, the blanks that do not break and the wide blank are white space;
/// letters and what lies beyond the wide blank are not.
pub proof fn law_space_beyond_ascii(c: char)
    ensures
        c as u32 == 0xa0 || c as u32 == 0x2003 || c as u32 == 0x202f || c as u32 == 0x3000
            ==> is_space(c),
        0xa1 <= c as u32 <= 0x167f || c as u32 > 0x3000 ==> !is_space(c),
{
}

} // verus!
