//! Text: comparison, splitting into words, and numbers in decimal.
use vstd::prelude::*;
use vstd::utf8::{encode_utf8, encode_utf8_decode_utf8};

use crate::message::texts;

verus! {

/// Whether two strings are the same text.
pub fn same_text(a: &str, b: &str) -> (r: bool)
    ensures
        r == (a@ == b@),
{
    let x = a.as_bytes();
    let y = b.as_bytes();
    proof {
        encode_utf8_decode_utf8(a@);
        encode_utf8_decode_utf8(b@);
    }
    if x.len() != y.len() {
        return false;
    }
    let mut i: usize = 0;
    while i < x.len()
        invariant
            i <= x@.len(),
            x@.len() == y@.len(),
            x@ == encode_utf8(a@),
            y@ == encode_utf8(b@),
            forall|j: int| 0 <= j < i ==> x@[j] == y@[j],
        decreases x@.len() - i,
    {
        if x[i] != y[i] {
            return false;
        }
        i += 1;
    }
    assert(x@ =~= y@);
    true
}

/// The characters of a text.
pub fn chars_of(s: &str) -> (r: Vec<char>)
    ensures
        r@ == s@,
{
    let mut r: Vec<char> = Vec::new();
    for c in it: s.chars()
        invariant
            r@ == it.seq().take(it.index() as int),
            it.seq() == s@,
    {
        r.push(c);
        assert(r@ =~= it.seq().take(it.index() as int + 1));
    }
    assert(r@ =~= s@);
    r
}

/// Whether `c` occurs in the text.
pub fn has_char(s: &str, c: char) -> (r: bool)
    ensures
        r == s@.contains(c),
{
    let cs = chars_of(s);
    let mut i: usize = 0;
    while i < cs.len()
        invariant
            i <= cs.len(),
            cs@ == s@,
            forall|j: int| 0 <= j < i ==> cs@[j] != c,
        decreases cs.len() - i,
    {
        if cs[i] == c {
            return true;
        }
        i += 1;
    }
    false
}

/// The text is `Y` or `y`: what its upper case is `Y` of.
pub open spec fn spec_is_yes(s: Seq<char>) -> bool {
    s == "Y"@ || s == "y"@
}

pub fn is_yes(s: &str) -> (r: bool)
    ensures
        r == spec_is_yes(s@),
{
    same_text(s, "Y") || same_text(s, "y")
}

/// The text is `no`, in upper or lower case.
pub open spec fn spec_is_no(s: Seq<char>) -> bool {
    s == "no"@ || s == "No"@ || s == "nO"@ || s == "NO"@
}

pub fn is_no(s: &str) -> (r: bool)
    ensures
        r == spec_is_no(s@),
{
    same_text(s, "no") || same_text(s, "No") || same_text(s, "nO") || same_text(s, "NO")
}

// Words.

/// A character with Unicode's property `White_Space`.
pub open spec fn spec_is_white(c: char) -> bool {
    ||| '\u{9}' <= c <= '\u{d}'
    ||| c == '\u{20}'
    ||| c == '\u{85}'
    ||| c == '\u{a0}'
    ||| c == '\u{1680}'
    ||| '\u{2000}' <= c <= '\u{200a}'
    ||| c == '\u{2028}'
    ||| c == '\u{2029}'
    ||| c == '\u{202f}'
    ||| c == '\u{205f}'
    ||| c == '\u{3000}'
}

fn is_white(c: char) -> (r: bool)
    ensures
        r == spec_is_white(c),
{
    ('\u{9}' <= c && c <= '\u{d}') || c == '\u{20}' || c == '\u{85}' || c == '\u{a0}' || c
        == '\u{1680}' || ('\u{2000}' <= c && c <= '\u{200a}') || c == '\u{2028}' || c == '\u{2029}'
        || c == '\u{202f}' || c == '\u{205f}' || c == '\u{3000}'
}

/// The text without white space at its ends.
pub open spec fn trimmed(s: Seq<char>) -> Seq<char>
    decreases s.len(),
{
    if s.len() == 0 {
        s
    } else if spec_is_white(s[0]) {
        trimmed(s.skip(1))
    } else if spec_is_white(s.last()) {
        trimmed(s.drop_last())
    } else {
        s
    }
}

/// The text cut at each `sep`. There is always one piece, and a piece may be empty.
pub open spec fn pieces(s: Seq<char>, sep: char) -> Seq<Seq<char>>
    decreases s.len(),
{
    if s.len() == 0 {
        seq![s]
    } else {
        let front = pieces(s.drop_last(), sep);
        if s.last() == sep {
            front.push(Seq::empty())
        } else {
            front.update(front.len() - 1, front.last().push(s.last()))
        }
    }
}

/// The pieces put together again, with a `sep` between each two.
pub open spec fn joined(words: Seq<Seq<char>>, sep: char) -> Seq<char>
    decreases words.len(),
{
    if words.len() == 0 {
        Seq::empty()
    } else if words.len() == 1 {
        words[0]
    } else {
        joined(words.drop_last(), sep).push(sep) + words.last()
    }
}

/// Nothing is lost in cutting: the pieces do not hold what they were cut at, and put together they
/// are the text.
pub proof fn law_split_pieces_join_to_the_text(s: Seq<char>, sep: char)
    ensures
        pieces(s, sep).len() >= 1,
        joined(pieces(s, sep), sep) == s,
        forall|i: int|
            0 <= i < pieces(s, sep).len() ==> !(#[trigger] pieces(s, sep)[i]).contains(sep),
    decreases s.len(),
{
    if s.len() > 0 {
        let t = s.drop_last();
        law_split_pieces_join_to_the_text(t, sep);
        let front = pieces(t, sep);
        let all = pieces(s, sep);
        assert(s =~= t.push(s.last()));
        if s.last() == sep {
            assert(all.drop_last() =~= front);
            assert(joined(all, sep) =~= s);
        } else {
            let n = front.len() - 1;
            assert forall|i: int| 0 <= i < all.len() implies !(#[trigger] all[i]).contains(sep) by {
                assert(!front[i].contains(sep));
                if i == n {
                    assert forall|k: int| 0 <= k < all[n].len() implies all[n][k] != sep by {
                        if k < front[n].len() {
                            assert(front[n][k] == all[n][k]);
                            assert(front[n].contains(front[n][k]));
                        }
                    }
                }
            }
            if n == 0 {
                assert(joined(all, sep) =~= s);
            } else {
                assert(all.drop_last() =~= front.drop_last());
                assert(joined(all, sep) =~= s);
            }
        }
    }
}

/// Cuts a text at each `sep`.
pub fn split_on(s: &str, sep: char) -> (r: Vec<String>)
    ensures
        texts(r@) == pieces(s@, sep),
        r@.len() >= 1,
{
    let cs = chars_of(s);
    let n: usize = cs.len();
    let mut words: Vec<String> = Vec::new();
    let mut start: usize = 0;
    let mut i: usize = 0;
    assert(cs@.take(0) =~= Seq::<char>::empty());
    assert(cs@.subrange(0, 0) =~= Seq::<char>::empty());
    assert(texts(words@).push(cs@.subrange(0, 0)) =~= pieces(cs@.take(0), sep));
    while i < n
        invariant
            start <= i <= n,
            n == cs@.len(),
            cs@ == s@,
            texts(words@).push(cs@.subrange(start as int, i as int)) == pieces(
                cs@.take(i as int),
                sep,
            ),
        decreases n - i,
    {
        let ghost upto = cs@.take(i + 1);
        proof {
            assert(upto.drop_last() =~= cs@.take(i as int));
            assert(upto.last() == cs@[i as int]);
        }
        let ghost before = texts(words@);
        if cs[i] == sep {
            let word = s.substring_char(start, i).to_owned();
            words.push(word);
            start = i + 1;
            proof {
                assert(texts(words@) =~= before.push(word@));
                assert(cs@.subrange(start as int, i + 1) =~= Seq::<char>::empty());
            }
        } else {
            proof {
                assert(cs@.subrange(start as int, i + 1) =~= cs@.subrange(
                    start as int,
                    i as int,
                ).push(cs@[i as int]));
                assert(before.push(cs@.subrange(start as int, i + 1)) =~= pieces(upto, sep));
            }
        }
        i += 1;
    }
    let ghost before = texts(words@);
    let word = s.substring_char(start, n).to_owned();
    words.push(word);
    proof {
        assert(cs@.take(n as int) =~= cs@);
        assert(texts(words@) =~= before.push(word@));
    }
    words
}

/// The words of a command: the text trimmed, and cut at each space.
pub open spec fn command_words(s: Seq<char>) -> Seq<Seq<char>> {
    pieces(trimmed(s), ' ')
}

/// The words of a command.
pub fn split_command(s: &str) -> (r: Vec<String>)
    ensures
        texts(r@) == command_words(s@),
        r@.len() >= 1,
{
    let cs = chars_of(s);
    let mut a: usize = 0;
    let mut b: usize = cs.len();
    assert(cs@.subrange(0, b as int) =~= cs@);
    while a < b && is_white(cs[a])
        invariant
            a <= b <= cs@.len(),
            b == cs@.len(),
            trimmed(cs@.subrange(a as int, b as int)) == trimmed(cs@),
        decreases b - a,
    {
        assert(cs@.subrange(a as int, b as int).skip(1) =~= cs@.subrange(a + 1, b as int));
        a += 1;
    }
    while a < b && is_white(cs[b - 1])
        invariant
            a <= b <= cs@.len(),
            a < b ==> !spec_is_white(cs@[a as int]),
            trimmed(cs@.subrange(a as int, b as int)) == trimmed(cs@),
        decreases b - a,
    {
        assert(cs@.subrange(a as int, b as int).drop_last() =~= cs@.subrange(a as int, b - 1));
        b -= 1;
    }
    split_on(s.substring_char(a, b), ' ')
}

// Numbers.

pub open spec fn is_digit(c: char) -> bool {
    '0' <= c <= '9'
}

/// The number that a row of decimal digits stands for.
pub open spec fn digits_value(s: Seq<char>) -> nat
    decreases s.len(),
{
    if s.len() == 0 {
        0
    } else {
        digits_value(s.drop_last()) * 10 + (s.last() as nat - '0' as nat) as nat
    }
}

/// The number that a text stands for, where it is a row of decimal digits.
pub open spec fn digits(s: Seq<char>) -> Option<nat> {
    if s.len() > 0 && (forall|i: int| 0 <= i < s.len() ==> is_digit(#[trigger] s[i])) {
        Some(digits_value(s))
    } else {
        None
    }
}

/// The number that a text stands for: digits, perhaps after a plus sign.
pub open spec fn parsed_unsigned(s: Seq<char>) -> Option<nat> {
    if s.len() > 0 && s[0] == '+' {
        digits(s.skip(1))
    } else {
        digits(s)
    }
}

/// The number that a text stands for: digits, perhaps after a sign.
pub open spec fn parsed_signed(s: Seq<char>) -> Option<int> {
    if s.len() > 0 && s[0] == '-' {
        match digits(s.skip(1)) {
            Some(n) => Some(-(n as int)),
            None => None,
        }
    } else {
        match parsed_unsigned(s) {
            Some(n) => Some(n as int),
            None => None,
        }
    }
}

/// `n`, where it is no more than `max`.
pub open spec fn within(n: Option<nat>, max: nat) -> Option<nat> {
    match n {
        Some(v) if v <= max => Some(v),
        _ => None,
    }
}

proof fn lemma_digits_value_grows(s: Seq<char>, k: int)
    requires
        0 <= k <= s.len(),
    ensures
        digits_value(s.take(k)) <= digits_value(s),
    decreases s.len() - k,
{
    if k == s.len() {
        assert(s.take(k) =~= s);
    } else {
        lemma_digits_value_grows(s, k + 1);
        assert(s.take(k + 1).drop_last() =~= s.take(k));
    }
}

/// The number in `cs` from `from` on.
fn parse_digits(cs: &Vec<char>, from: usize) -> (r: Option<u64>)
    requires
        from <= cs@.len(),
    ensures
        match r {
            Some(v) => digits(cs@.skip(from as int)) == Some(v as nat),
            None => within(digits(cs@.skip(from as int)), u64::MAX as nat) is None,
        },
{
    let ghost d = cs@.skip(from as int);
    if from == cs.len() {
        return None;
    }
    let mut v: u64 = 0;
    let mut i: usize = from;
    while i < cs.len()
        invariant
            from <= i <= cs@.len(),
            d == cs@.skip(from as int),
            v == digits_value(d.take(i - from)),
            forall|j: int| 0 <= j < i - from ==> is_digit(#[trigger] d[j]),
        decreases cs@.len() - i,
    {
        let c: char = cs[i];
        assert(d[i - from] == c);
        if !('0' <= c && c <= '9') {
            return None;
        }
        let ghost upto = d.take(i + 1 - from);
        proof {
            assert(upto.drop_last() =~= d.take(i - from));
            assert(upto.last() == c);
            lemma_digits_value_grows(d, i + 1 - from);
        }
        let digit: u64 = c as u64 - '0' as u64;
        match v.checked_mul(10) {
            Some(m) => match m.checked_add(digit) {
                Some(n) => {
                    v = n;
                },
                None => {
                    return None;
                },
            },
            None => {
                return None;
            },
        }
        i += 1;
    }
    assert(d.take(cs@.len() - from) =~= d);
    Some(v)
}

/// Reads an unsigned number.
pub fn parse_u64(s: &str) -> (r: Option<u64>)
    ensures
        match r {
            Some(v) => within(parsed_unsigned(s@), u64::MAX as nat) == Some(v as nat),
            None => within(parsed_unsigned(s@), u64::MAX as nat) is None,
        },
{
    let cs = chars_of(s);
    if cs.len() > 0 && cs[0] == '+' {
        parse_digits(&cs, 1)
    } else {
        assert(cs@.skip(0) =~= cs@);
        parse_digits(&cs, 0)
    }
}

/// Reads an unsigned number that fits an index.
pub fn parse_usize(s: &str) -> (r: Option<usize>)
    ensures
        match r {
            Some(v) => within(parsed_unsigned(s@), usize::MAX as nat) == Some(v as nat),
            None => within(parsed_unsigned(s@), usize::MAX as nat) is None,
        },
{
    match parse_u64(s) {
        Some(v) => if v <= usize::MAX as u64 {
            Some(v as usize)
        } else {
            None
        },
        None => None,
    }
}

/// The number that a text stands for, where it fits an `i32`.
pub open spec fn parsed_i32(s: Seq<char>) -> Option<i32> {
    match parsed_signed(s) {
        Some(n) if i32::MIN <= n <= i32::MAX => Some(n as i32),
        _ => None,
    }
}

/// Reads a signed number.
pub fn parse_i32(s: &str) -> (r: Option<i32>)
    ensures
        r == parsed_i32(s@),
{
    let cs = chars_of(s);
    if cs.len() > 0 && cs[0] == '-' {
        match parse_digits(&cs, 1) {
            Some(v) => if v <= 0x8000_0000 {
                Some((-(v as i64)) as i32)
            } else {
                None
            },
            None => None,
        }
    } else {
        match parse_u64(s) {
            Some(v) => if v <= 0x7fff_ffff {
                Some(v as i32)
            } else {
                None
            },
            None => None,
        }
    }
}

/// The digit of a number below ten.
pub open spec fn digit_char(d: nat) -> char {
    ('0' as nat + d) as char
}

/// A number in decimal.
pub open spec fn decimal(n: nat) -> Seq<char>
    decreases n,
{
    if n < 10 {
        seq![digit_char(n)]
    } else {
        decimal(n / 10).push(digit_char(n % 10))
    }
}

fn digit_text(d: u64) -> (r: &'static str)
    requires
        d < 10,
    ensures
        r@ == seq![digit_char(d as nat)],
{
    proof {
        reveal_strlit("0");
        reveal_strlit("1");
        reveal_strlit("2");
        reveal_strlit("3");
        reveal_strlit("4");
        reveal_strlit("5");
        reveal_strlit("6");
        reveal_strlit("7");
        reveal_strlit("8");
        reveal_strlit("9");
    }
    let r: &'static str = if d == 0 {
        "0"
    } else if d == 1 {
        "1"
    } else if d == 2 {
        "2"
    } else if d == 3 {
        "3"
    } else if d == 4 {
        "4"
    } else if d == 5 {
        "5"
    } else if d == 6 {
        "6"
    } else if d == 7 {
        "7"
    } else if d == 8 {
        "8"
    } else {
        "9"
    };
    assert(r@ =~= seq![digit_char(d as nat)]);
    r
}

/// Writes a number in decimal.
pub fn decimal_text(n: u64) -> (r: String)
    ensures
        r@ == decimal(n as nat),
    decreases n,
{
    let mut r = if n < 10 {
        String::new()
    } else {
        decimal_text(n / 10)
    };
    r.append(digit_text(n % 10));
    assert(r@ =~= decimal(n as nat));
    r
}

/// Yes is the one letter, in upper or lower case; no is the two, in any case.
pub proof fn law_yes_and_no(s: Seq<char>)
    ensures
        spec_is_yes(s) <==> s.len() == 1 && (s[0] == 'Y' || s[0] == 'y'),
        spec_is_no(s) <==> s.len() == 2 && (s[0] == 'N' || s[0] == 'n') && (s[1] == 'O' || s[1]
            == 'o'),
{
    reveal_strlit("Y");
    reveal_strlit("y");
    reveal_strlit("no");
    reveal_strlit("No");
    reveal_strlit("nO");
    reveal_strlit("NO");
    if s.len() == 1 {
        assert(s[0] == 'Y' ==> s =~= "Y"@);
        assert(s[0] == 'y' ==> s =~= "y"@);
    }
    if s.len() == 2 {
        assert(s[0] == 'n' && s[1] == 'o' ==> s =~= "no"@);
        assert(s[0] == 'N' && s[1] == 'o' ==> s =~= "No"@);
        assert(s[0] == 'n' && s[1] == 'O' ==> s =~= "nO"@);
        assert(s[0] == 'N' && s[1] == 'O' ==> s =~= "NO"@);
    }
}

/// Every character is white.
pub open spec fn all_white(s: Seq<char>) -> bool {
    forall|i: int| 0 <= i < s.len() ==> spec_is_white(#[trigger] s[i])
}

/// Trimming takes white space off the two ends, and nothing else: what is left has none at its ends,
/// and what is taken off is all white.
pub proof fn law_trimming_takes_only_white_space(s: Seq<char>)
    ensures
        trimmed(s).len() > 0 ==> !spec_is_white(trimmed(s)[0]) && !spec_is_white(trimmed(s).last()),
        exists|a: Seq<char>, b: Seq<char>|
            #![trigger all_white(a), all_white(b)]
            all_white(a) && all_white(b) && s == a + trimmed(s) + b,
    decreases s.len(),
{
    let none = Seq::<char>::empty();
    if s.len() == 0 {
        assert(all_white(none));
        assert(s =~= none + trimmed(s) + none);
    } else if spec_is_white(s[0]) {
        law_trimming_takes_only_white_space(s.skip(1));
        let (a, b) = choose|a: Seq<char>, b: Seq<char>|
            #![trigger all_white(a), all_white(b)]
            all_white(a) && all_white(b) && s.skip(1) == a + trimmed(s.skip(1)) + b;
        let c = seq![s[0]] + a;
        assert forall|i: int| 0 <= i < c.len() implies spec_is_white(#[trigger] c[i]) by {
            if i > 0 {
                assert(c[i] == a[i - 1]);
            }
        }
        assert(all_white(c));
        assert(trimmed(s) == trimmed(s.skip(1)));
        assert(s =~= seq![s[0]] + s.skip(1));
        assert(c + trimmed(s) + b =~= seq![s[0]] + (a + trimmed(s) + b));
    } else if spec_is_white(s.last()) {
        law_trimming_takes_only_white_space(s.drop_last());
        let (a, b) = choose|a: Seq<char>, b: Seq<char>|
            #![trigger all_white(a), all_white(b)]
            all_white(a) && all_white(b) && s.drop_last() == a + trimmed(s.drop_last()) + b;
        let c = b.push(s.last());
        assert forall|i: int| 0 <= i < c.len() implies spec_is_white(#[trigger] c[i]) by {
            if i < b.len() {
                assert(c[i] == b[i]);
            }
        }
        assert(all_white(c));
        assert(trimmed(s) == trimmed(s.drop_last()));
        assert(s =~= s.drop_last().push(s.last()));
        assert(a + trimmed(s) + c =~= (a + trimmed(s) + b).push(s.last()));
    } else {
        assert(all_white(none));
        assert(s =~= none + trimmed(s) + none);
    }
}

/// The words of a command have no space in them; with one between each two they are the command, but
/// for white space at its ends.
pub proof fn law_words_are_the_command(s: Seq<char>)
    ensures
        command_words(s).len() >= 1,
        joined(command_words(s), ' ') == trimmed(s),
        forall|i: int|
            0 <= i < command_words(s).len() ==> !(#[trigger] command_words(s)[i]).contains(' '),
{
    law_split_pieces_join_to_the_text(trimmed(s), ' ');
}

/// Of the characters of ASCII, the space and the five controls from the tabulator to the carriage
/// return are white space.
pub proof fn law_white_space_in_ascii(c: char)
    requires
        c < '\u{80}',
    ensures
        spec_is_white(c) <==> c == ' ' || '\u{9}' <= c <= '\u{d}',
{
}

/// A number is written in digits, the first of which is no zero unless it is the only one; and what
/// is written is read as that number, with or without a plus sign before it.
pub proof fn law_written_number_is_read_back(n: nat)
    ensures
        decimal(n).len() > 0,
        forall|i: int| 0 <= i < decimal(n).len() ==> '0' <= #[trigger] decimal(n)[i] <= '9',
        n > 0 ==> decimal(n)[0] != '0',
        n < 10 ==> decimal(n).len() == 1,
        digits_value(decimal(n)) == n,
        parsed_unsigned(decimal(n)) == Some(n),
        parsed_unsigned(seq!['+'] + decimal(n)) == Some(n),
        parsed_signed(decimal(n)) == Some(n as int),
        parsed_signed(seq!['-'] + decimal(n)) == Some(-(n as int)),
{
    lemma_decimal_digits(n);
    let d = decimal(n);
    assert((seq!['+'] + d).skip(1) =~= d);
    assert((seq!['-'] + d).skip(1) =~= d);
    assert('0' <= d[0] <= '9');
    assert forall|i: int| 0 <= i < d.len() implies is_digit(#[trigger] d[i]) by {}
}

proof fn lemma_decimal_digits(n: nat)
    ensures
        decimal(n).len() > 0,
        forall|i: int| 0 <= i < decimal(n).len() ==> '0' <= #[trigger] decimal(n)[i] <= '9',
        n > 0 ==> decimal(n)[0] != '0',
        n < 10 ==> decimal(n).len() == 1,
        digits_value(decimal(n)) == n,
    decreases n,
{
    let d = decimal(n);
    if n < 10 {
        assert(d.drop_last() =~= Seq::<char>::empty());
        assert(digits_value(d.drop_last()) == 0);
    } else {
        lemma_decimal_digits(n / 10);
        let front = decimal(n / 10);
        assert(d.drop_last() =~= front);
        assert forall|i: int| 0 <= i < d.len() implies '0' <= #[trigger] d[i] <= '9' by {
            if i < front.len() {
                assert(d[i] == front[i]);
            }
        }
        assert(d[0] == front[0]);
    }
}

/// Only digits make a number, after at most one sign; and each digit to the right counts for ten
/// times less.
pub proof fn law_only_digits_make_a_number(s: Seq<char>, i: int, c: char)
    ensures
        parsed_unsigned(Seq::empty()) is None,
        parsed_signed(Seq::empty()) is None,
        0 < i < s.len() && !('0' <= s[i] <= '9') ==> parsed_unsigned(s) is None && parsed_signed(s)
            is None,
        s.len() > 0 && s[0] == '-' ==> parsed_unsigned(s) is None,
        s.len() > 0 && !('0' <= s[0] <= '9') && s[0] != '+' && s[0] != '-' ==> parsed_signed(s)
            is None,
        parsed_unsigned(s) is Some && '0' <= c <= '9' ==> parsed_unsigned(s.push(c)) == Some(
            (parsed_unsigned(s)->0 * 10 + (c as nat - '0' as nat)) as nat,
        ),
{
    if 0 < i < s.len() && !('0' <= s[i] <= '9') {
        assert(!is_digit(s[i]));
        assert(s.skip(1)[i - 1] == s[i]);
    }
    if s.len() > 0 {
        assert(is_digit(s[0]) <==> '0' <= s[0] <= '9');
    }
    if parsed_unsigned(s) is Some && '0' <= c <= '9' {
        let t = s.push(c);
        if s[0] == '+' {
            assert(t.skip(1) =~= s.skip(1).push(c));
            lemma_digit_added(s.skip(1), c);
        } else {
            lemma_digit_added(s, c);
        }
    }
}

proof fn lemma_digit_added(s: Seq<char>, c: char)
    requires
        digits(s) is Some,
        '0' <= c <= '9',
    ensures
        digits(s.push(c)) == Some((digits(s)->0 * 10 + (c as nat - '0' as nat)) as nat),
{
    let t = s.push(c);
    assert(t.drop_last() =~= s);
    assert forall|i: int| 0 <= i < t.len() implies is_digit(#[trigger] t[i]) by {
        if i < s.len() {
            assert(t[i] == s[i]);
        }
    }
}

/// A number that is read fits: one that is out of range is none at all.
pub proof fn law_numbers_out_of_range_are_none(n: nat, max: nat)
    ensures
        n <= max ==> within(Some(n), max) == Some(n),
        n > max ==> within(Some(n), max) is None,
        within(None, max) is None,
        n <= 0x7fff_ffff ==> parsed_i32(decimal(n)) == Some(n as i32),
        n > 0x7fff_ffff ==> parsed_i32(decimal(n)) is None,
        n <= 0x8000_0000 ==> parsed_i32(seq!['-'] + decimal(n)) == Some((-(n as int)) as i32),
        n > 0x8000_0000 ==> parsed_i32(seq!['-'] + decimal(n)) is None,
{
    law_written_number_is_read_back(n);
}

} // verus!
