//! Text handling shared by the bot: decimal digits, integer parsing,
//! whitespace, splitting and joining.

use vstd::prelude::*;

verus! {

/// Calls `String::push`. Trusted: the character is appended to the text.
#[verifier::external_body]
pub(crate) fn push_char(s: &mut String, c: char)
    ensures
        final(s)@ == old(s)@.push(c),
{
    s.push(c);
}

/// The character of a decimal digit.
pub open spec fn digit_char(d: nat) -> char
    recommends
        d < 10,
{
    ((d + 48) as u8) as char
}

/// The decimal digits of a natural number, without leading zeros.
pub open spec fn decimal(n: nat) -> Seq<char>
    decreases n,
{
    if n < 10 {
        seq![digit_char(n)]
    } else {
        decimal(n / 10).push(digit_char(n % 10))
    }
}

/// The decimal text of an integer, with a leading '-' when negative.
pub open spec fn signed_decimal(i: int) -> Seq<char> {
    if i < 0 {
        seq!['-'] + decimal((-i) as nat)
    } else {
        decimal(i as nat)
    }
}

fn push_decimal(s: &mut String, n: u64)
    ensures
        final(s)@ == old(s)@ + decimal(n as nat),
    decreases n,
{
    if n >= 10 {
        push_decimal(s, n / 10);
    }
    let d: u8 = (n % 10) as u8;
    push_char(s, (d + 48) as char);
    assert(final(s)@ == old(s)@ + decimal(n as nat));
}

/// The decimal text of an unsigned number, as `to_string` writes it.
pub fn u64_to_string(n: u64) -> (s: String)
    ensures
        s@ == decimal(n as nat),
{
    let mut s = String::new();
    push_decimal(&mut s, n);
    s
}

/// The decimal text of a signed number, as `to_string` writes it.
pub fn i64_to_string(i: i64) -> (s: String)
    ensures
        s@ == signed_decimal(i as int),
{
    let mut s = String::new();
    if i < 0 {
        push_char(&mut s, '-');
        let magnitude: u64 = (0i128 - (i as i128)) as u64;
        push_decimal(&mut s, magnitude);
        assert(s@ =~= seq!['-'] + decimal((-i) as nat));
    } else {
        push_decimal(&mut s, i as u64);
        assert(s@ =~= decimal(i as nat));
    }
    s
}

} // verus!

verus! {

/// The characters of a string, one by one.
pub fn char_vec(s: &str) -> (v: Vec<char>)
    ensures
        v@ == s@,
{
    broadcast use vstd::string::group_string_axioms;
    let mut v: Vec<char> = Vec::new();
    for c in it: s.chars()
        invariant
            v@ == it.seq().take(it.index() as int),
    {
        v.push(c);
        assert(v@ == it.seq().take(it.index() as int + 1));
    }
    assert(v@ == s@);
    v
}

} // verus!

verus! {

/// A string made of the characters `chars[start..end]`.
pub fn string_of(chars: &Vec<char>, start: usize, end: usize) -> (s: String)
    requires
        start <= end <= chars.len(),
    ensures
        s@ == chars@.subrange(start as int, end as int),
{
    let mut s = String::new();
    let mut i = start;
    while i < end
        invariant
            start <= i <= end <= chars.len(),
            s@ == chars@.subrange(start as int, i as int),
        decreases end - i,
    {
        push_char(&mut s, chars[i]);
        assert(s@ =~= chars@.subrange(start as int, i + 1));
        i = i + 1;
    }
    s
}

/// Whether two strings hold the same characters.
pub fn same_text(a: &str, b: &str) -> (r: bool)
    ensures
        r == (a@ == b@),
{
    let x = char_vec(a);
    let y = char_vec(b);
    if x.len() != y.len() {
        return false;
    }
    let mut i: usize = 0;
    while i < x.len()
        invariant
            x@ == a@,
            y@ == b@,
            x.len() == y.len(),
            i <= x.len(),
            forall|k: int| 0 <= k < i ==> x@[k] == y@[k],
        decreases x.len() - i,
    {
        if x[i] != y[i] {
            return false;
        }
        i = i + 1;
    }
    assert(x@ =~= y@);
    true
}

/// `prefix` is a prefix of `s`.
pub open spec fn has_prefix(s: Seq<char>, prefix: Seq<char>) -> bool {
    prefix.len() <= s.len() && s.take(prefix.len() as int) == prefix
}

/// Whether `s` starts with `prefix` (`str::starts_with`).
pub fn starts_with(s: &str, prefix: &str) -> (r: bool)
    ensures
        r == has_prefix(s@, prefix@),
{
    let x = char_vec(s);
    let p = char_vec(prefix);
    if p.len() > x.len() {
        return false;
    }
    let mut i: usize = 0;
    while i < p.len()
        invariant
            x@ == s@,
            p@ == prefix@,
            p.len() <= x.len(),
            i <= p.len(),
            forall|k: int| 0 <= k < i ==> x@[k] == p@[k],
        decreases p.len() - i,
    {
        if x[i] != p[i] {
            assert(s@.take(prefix@.len() as int)[i as int] != prefix@[i as int]);
            return false;
        }
        i = i + 1;
    }
    assert(s@.take(prefix@.len() as int) =~= prefix@);
    true
}

/// Unicode `White_Space`, the set that `char::is_whitespace` tests.
pub open spec fn is_white_space(c: char) -> bool {
    ||| c == ' '
    ||| ('\u{9}' <= c && c <= '\u{d}')
    ||| c == '\u{85}'
    ||| c == '\u{a0}'
    ||| c == '\u{1680}'
    ||| ('\u{2000}' <= c && c <= '\u{200a}')
    ||| c == '\u{2028}'
    ||| c == '\u{2029}'
    ||| c == '\u{202f}'
    ||| c == '\u{205f}'
    ||| c == '\u{3000}'
}

/// Whether a character is white space (`char::is_whitespace`).
pub fn is_white_space_char(c: char) -> (r: bool)
    ensures
        r == is_white_space(c),
{
    c == ' ' || ('\u{9}' <= c && c <= '\u{d}') || c == '\u{85}' || c == '\u{a0}' || c == '\u{1680}'
        || ('\u{2000}' <= c && c <= '\u{200a}') || c == '\u{2028}' || c == '\u{2029}' || c
        == '\u{202f}' || c == '\u{205f}' || c == '\u{3000}'
}

/// The characters of `s` that are not white space, in order.
pub open spec fn without_white_space(s: Seq<char>) -> Seq<char>
    decreases s.len(),
{
    if s.len() == 0 {
        s
    } else if is_white_space(s.last()) {
        without_white_space(s.drop_last())
    } else {
        without_white_space(s.drop_last()).push(s.last())
    }
}

/// The words of `s` glued together: `s.split_whitespace().collect::<String>()`.
pub fn strip_white_space(s: &str) -> (r: String)
    ensures
        r@ == without_white_space(s@),
{
    let cs = char_vec(s);
    let mut r = String::new();
    let mut i: usize = 0;
    assert(cs@.take(0) =~= Seq::<char>::empty());
    while i < cs.len()
        invariant
            cs@ == s@,
            i <= cs.len(),
            r@ == without_white_space(cs@.take(i as int)),
        decreases cs.len() - i,
    {
        let c = cs[i];
        assert(cs@.take(i + 1).drop_last() =~= cs@.take(i as int));
        if !is_white_space_char(c) {
            push_char(&mut r, c);
        }
        i = i + 1;
    }
    assert(cs@.take(cs.len() as int) =~= cs@);
    r
}

/// Length of the run of non-white-space characters that starts `s`.
pub open spec fn word_len(s: Seq<char>) -> nat
    decreases s.len(),
{
    if s.len() == 0 || is_white_space(s[0]) {
        0
    } else {
        1 + word_len(s.drop_first())
    }
}

/// A word run is no longer than the text, and at least one character long when the text starts with one.
pub proof fn lemma_word_len_bound(s: Seq<char>)
    ensures
        word_len(s) <= s.len(),
        s.len() > 0 && !is_white_space(s[0]) ==> word_len(s) >= 1,
    decreases s.len(),
{
    if s.len() > 0 && !is_white_space(s[0]) {
        lemma_word_len_bound(s.drop_first());
    }
}

/// The white-space separated words of `s`, as `str::split_whitespace` yields them.
pub open spec fn words(s: Seq<char>) -> Seq<Seq<char>>
    decreases s.len(),
{
    if s.len() == 0 {
        seq![]
    } else if is_white_space(s[0]) {
        words(s.drop_first())
    } else {
        proof {
            lemma_word_len_bound(s);
        }
        seq![s.take(word_len(s) as int)] + words(s.skip(word_len(s) as int))
    }
}

/// Splits `s` into its white-space separated words.
pub fn split_words(s: &str) -> (r: Vec<String>)
    ensures
        r.deep_view() == words(s@),
{
    let cs = char_vec(s);
    let n = cs.len();
    let mut out: Vec<String> = Vec::new();
    let mut i: usize = 0;
    assert(cs@.skip(0) =~= cs@);
    while i < n
        invariant
            cs@ == s@,
            n == cs.len(),
            i <= n,
            words(cs@) == out.deep_view() + words(cs@.skip(i as int)),
        decreases n - i,
    {
        let ghost rest = cs@.skip(i as int);
        if is_white_space_char(cs[i]) {
            assert(rest.drop_first() =~= cs@.skip(i + 1));
            i = i + 1;
        } else {
            let mut j = i;
            assert(cs@.skip(j as int) == rest);
            while j < n && !is_white_space_char(cs[j])
                invariant
                    cs@ == s@,
                    n == cs.len(),
                    i <= j <= n,
                    rest == cs@.skip(i as int),
                    word_len(rest) == (j - i) + word_len(cs@.skip(j as int)),
                decreases n - j,
            {
                assert(cs@.skip(j as int).drop_first() =~= cs@.skip(j + 1));
                j = j + 1;
            }
            assert(word_len(cs@.skip(j as int)) == 0);
            let w = string_of(&cs, i, j);
            proof {
                lemma_word_len_bound(rest);
                assert(rest.take(word_len(rest) as int) =~= cs@.subrange(i as int, j as int));
                assert(rest.skip(word_len(rest) as int) =~= cs@.skip(j as int));
            }
            let ghost before = out.deep_view();
            out.push(w);
            assert(out.deep_view() =~= before.push(w@));
            assert(words(cs@) =~= out.deep_view() + words(cs@.skip(j as int)));
            i = j;
        }
    }
    assert(cs@.skip(n as int) =~= Seq::<char>::empty());
    assert(out.deep_view() =~= out.deep_view() + words(cs@.skip(n as int)));
    out
}

} // verus!

verus! {

/// The pieces of `s` between occurrences of `sep`, empty pieces included,
/// as `str::split` with a one-character pattern yields them.
pub open spec fn pieces(s: Seq<char>, sep: char) -> Seq<Seq<char>>
    decreases s.len(),
{
    if s.len() == 0 {
        seq![seq![]]
    } else {
        let p = pieces(s.drop_last(), sep);
        if s.last() == sep {
            p.push(seq![])
        } else {
            p.update(p.len() - 1, p.last().push(s.last()))
        }
    }
}

/// Splitting always yields at least one piece.
pub proof fn lemma_pieces_nonempty(s: Seq<char>, sep: char)
    ensures
        pieces(s, sep).len() >= 1,
    decreases s.len(),
{
    if s.len() > 0 {
        lemma_pieces_nonempty(s.drop_last(), sep);
    }
}

/// Splits `s` at every `sep`.
pub fn split_on(s: &str, sep: char) -> (r: Vec<String>)
    ensures
        r.deep_view() == pieces(s@, sep),
{
    let cs = char_vec(s);
    let mut out: Vec<String> = Vec::new();
    let mut cur = String::new();
    let mut i: usize = 0;
    assert(cs@.take(0) =~= Seq::<char>::empty());
    while i < cs.len()
        invariant
            cs@ == s@,
            i <= cs.len(),
            pieces(cs@.take(i as int), sep) == out.deep_view().push(cur@),
        decreases cs.len() - i,
    {
        let c = cs[i];
        let ghost before = out.deep_view();
        let ghost old_cur = cur@;
        assert(cs@.take(i + 1).drop_last() =~= cs@.take(i as int));
        if c == sep {
            let done = cur;
            out.push(done);
            cur = String::new();
            assert(out.deep_view() =~= before.push(old_cur));
            assert(pieces(cs@.take(i + 1), sep) =~= out.deep_view().push(cur@));
        } else {
            push_char(&mut cur, c);
            assert(pieces(cs@.take(i + 1), sep) =~= out.deep_view().push(cur@));
        }
        i = i + 1;
    }
    assert(cs@.take(cs.len() as int) =~= cs@);
    let ghost before = out.deep_view();
    out.push(cur);
    assert(out.deep_view() =~= before.push(cur@));
    out
}

/// The parts glued together with `sep` between neighbours (`[..].join(sep)`).
pub open spec fn joined(parts: Seq<Seq<char>>, sep: Seq<char>) -> Seq<char>
    decreases parts.len(),
{
    if parts.len() == 0 {
        seq![]
    } else if parts.len() == 1 {
        parts[0]
    } else {
        joined(parts.drop_last(), sep) + sep + parts.last()
    }
}

/// `parts[start..].join(sep)`.
pub fn join_from(parts: &Vec<String>, start: usize, sep: &str) -> (r: String)
    requires
        start <= parts.len(),
    ensures
        r@ == joined(parts.deep_view().skip(start as int), sep@),
{
    let mut r = String::new();
    let mut i = start;
    assert(parts.deep_view().subrange(start as int, start as int) =~= Seq::<Seq<char>>::empty());
    while i < parts.len()
        invariant
            start <= i <= parts.len(),
            r@ == joined(parts.deep_view().subrange(start as int, i as int), sep@),
        decreases parts.len() - i,
    {
        let ghost sub = parts.deep_view().subrange(start as int, i + 1);
        assert(sub.drop_last() =~= parts.deep_view().subrange(start as int, i as int));
        if i > start {
            r.append(sep);
            r.append(parts[i].as_str());
        } else {
            r.append(parts[i].as_str());
            assert(r@ =~= sub[0]);
        }
        i = i + 1;
    }
    assert(parts.deep_view().subrange(start as int, parts.len() as int) =~= parts.deep_view().skip(
        start as int,
    ));
    r
}

/// An ASCII decimal digit.
pub open spec fn is_digit(c: char) -> bool {
    '0' <= c && c <= '9'
}

/// Every character is a decimal digit.
pub open spec fn all_digits(s: Seq<char>) -> bool {
    forall|i: int| 0 <= i < s.len() ==> is_digit(#[trigger] s[i])
}

/// The number that a run of decimal digits denotes.
pub open spec fn digits_value(s: Seq<char>) -> nat
    decreases s.len(),
{
    if s.len() == 0 {
        0
    } else {
        digits_value(s.drop_last()) * 10 + ((s.last() as nat) - 48) as nat
    }
}

/// What `str::parse` reads from `s` for an unsigned integer type, before the
/// range check: an optional '+' and one or more decimal digits.
pub open spec fn parse_natural(s: Seq<char>) -> Option<nat> {
    let body = if s.len() > 0 && s[0] == '+' {
        s.drop_first()
    } else {
        s
    };
    if body.len() > 0 && all_digits(body) {
        Some(digits_value(body))
    } else {
        None
    }
}

/// What `str::parse` reads from `s` for a signed integer type, before the
/// range check: an optional sign and one or more decimal digits.
pub open spec fn parse_integer(s: Seq<char>) -> Option<int> {
    if s.len() > 0 && s[0] == '-' {
        let body = s.drop_first();
        if body.len() > 0 && all_digits(body) {
            Some(-(digits_value(body) as int))
        } else {
            None
        }
    } else {
        match parse_natural(s) {
            Some(v) => Some(v as int),
            None => None,
        }
    }
}

/// A prefix of a digit run denotes no larger a number.
pub proof fn lemma_digits_value_prefix(s: Seq<char>, k: int)
    requires
        all_digits(s),
        0 <= k <= s.len(),
    ensures
        digits_value(s.take(k)) <= digits_value(s),
    decreases s.len(),
{
    if k < s.len() {
        let d = s.drop_last();
        assert(d.take(k) =~= s.take(k));
        assert(all_digits(d)) by {
            assert forall|i: int| 0 <= i < d.len() implies is_digit(#[trigger] d[i]) by {
                assert(d[i] == s[i]);
            }
        }
        lemma_digits_value_prefix(d, k);
    } else {
        assert(s.take(k) =~= s);
    }
}

/// Reads the decimal digits `cs[from..]`, giving up once the value passes `limit`.
fn read_digits(cs: &Vec<char>, from: usize, limit: u128) -> (r: Option<u128>)
    requires
        from <= cs.len(),
        limit < 0x1_0000_0000_0000_0000,
    ensures
        ({
            let body = cs@.skip(from as int);
            match r {
                Some(v) => all_digits(body) && v == digits_value(body) && v <= limit,
                None => !all_digits(body) || digits_value(body) > limit,
            }
        }),
{
    let ghost body = cs@.skip(from as int);
    let mut acc: u128 = 0;
    let mut i = from;
    assert(body.take(0) =~= Seq::<char>::empty());
    while i < cs.len()
        invariant
            from <= i <= cs.len(),
            body == cs@.skip(from as int),
            limit < 0x1_0000_0000_0000_0000,
            acc <= limit,
            all_digits(body.take(i - from)),
            acc == digits_value(body.take(i - from)),
        decreases cs.len() - i,
    {
        let c = cs[i];
        let ghost t = body.take(i - from + 1);
        assert(t.drop_last() =~= body.take(i - from));
        assert(t.last() == c);
        if !('0' <= c && c <= '9') {
            assert(!is_digit(body[i - from]));
            return None;
        }
        assert(all_digits(t)) by {
            assert forall|k: int| 0 <= k < t.len() implies is_digit(#[trigger] t[k]) by {
                if k < t.len() - 1 {
                    assert(t[k] == body.take(i - from)[k]);
                }
            }
        }
        let d: u128 = (c as u32 - 48) as u128;
        acc = acc * 10 + d;
        if acc > limit {
            proof {
                if all_digits(body) {
                    lemma_digits_value_prefix(body, i - from + 1);
                }
            }
            return None;
        }
        i = i + 1;
    }
    assert(body.take(i - from) =~= body);
    Some(acc)
}

/// `s.parse::<u16>().ok()`.
pub fn parse_u16(s: &str) -> (r: Option<u16>)
    ensures
        r == (match parse_natural(s@) {
            Some(v) => if v <= u16::MAX {
                Some(v as u16)
            } else {
                None
            },
            None => None,
        }),
{
    let cs = char_vec(s);
    if cs.len() == 0 {
        return None;
    }
    let from: usize = if cs[0] == '+' {
        1
    } else {
        0
    };
    assert(from == 1 ==> cs@.skip(1) =~= s@.drop_first());
    assert(cs@.skip(0) =~= cs@);
    if from == cs.len() {
        return None;
    }
    match read_digits(&cs, from, 0xffff) {
        Some(v) => Some(v as u16),
        None => None,
    }
}

/// `s.parse::<i64>().ok()`.
pub fn parse_i64(s: &str) -> (r: Option<i64>)
    ensures
        r == (match parse_integer(s@) {
            Some(v) => if i64::MIN <= v <= i64::MAX {
                Some(v as i64)
            } else {
                None
            },
            None => None,
        }),
{
    let cs = char_vec(s);
    if cs.len() == 0 {
        return None;
    }
    assert(cs@.skip(1) =~= s@.drop_first());
    assert(cs@.skip(0) =~= cs@);
    if cs[0] == '-' {
        if cs.len() == 1 {
            return None;
        }
        match read_digits(&cs, 1, 0x8000_0000_0000_0000) {
            Some(v) => Some((0i128 - (v as i128)) as i64),
            None => None,
        }
    } else {
        let from: usize = if cs[0] == '+' {
            1
        } else {
            0
        };
        if from == cs.len() {
            return None;
        }
        match read_digits(&cs, from, 0x7fff_ffff_ffff_ffff) {
            Some(v) => Some(v as i64),
            None => None,
        }
    }
}

} // verus!

verus! {

/// Decimal text holds only digits, and reads back as the number it writes.
pub proof fn lemma_decimal_reads_back(n: nat)
    ensures
        decimal(n).len() > 0,
        all_digits(decimal(n)),
        digits_value(decimal(n)) == n,
    decreases n,
{
    let k: nat = n % 10;
    assert((((k + 48) as u8) as char) as nat == k + 48);
    let d = decimal(n);
    if n >= 10 {
        lemma_decimal_reads_back(n / 10);
        assert(d.drop_last() =~= decimal(n / 10));
        assert(d.last() == digit_char(k));
        assert(digits_value(d) == digits_value(decimal(n / 10)) * 10 + k);
        assert((n / 10) * 10 + k == n);
        assert forall|i: int| 0 <= i < d.len() implies is_digit(#[trigger] d[i]) by {
            if i < d.len() - 1 {
                assert(d[i] == decimal(n / 10)[i]);
            }
        }
    } else {
        assert(d.drop_last() =~= Seq::<char>::empty());
        assert(d.last() == digit_char(n));
        assert(digits_value(Seq::<char>::empty()) == 0);
        assert(digits_value(d) == k);
        assert(is_digit(d[0]));
    }
}

/// `to_string` and `parse` agree on integers: the signed decimal text of a
/// number parses back to it.
pub proof fn lemma_signed_decimal_parses(i: int)
    ensures
        parse_integer(signed_decimal(i)) == Some(i),
{
    if i < 0 {
        lemma_decimal_reads_back((-i) as nat);
        let s = signed_decimal(i);
        assert(s.drop_first() =~= decimal((-i) as nat));
    } else {
        lemma_decimal_reads_back(i as nat);
        let s = decimal(i as nat);
        assert(is_digit(s[0]));
    }
}

/// A text without the separator is a single piece.
pub proof fn lemma_pieces_without_separator(s: Seq<char>, sep: char)
    requires
        !s.contains(sep),
    ensures
        pieces(s, sep) == seq![s],
    decreases s.len(),
{
    if s.len() > 0 {
        assert(!s.drop_last().contains(sep)) by {
            if s.drop_last().contains(sep) {
                let k = choose|k: int| 0 <= k < s.drop_last().len() && s.drop_last()[k] == sep;
                assert(s[k] == sep);
            }
        }
        lemma_pieces_without_separator(s.drop_last(), sep);
        assert(s.last() != sep) by {
            assert(s[s.len() - 1] == s.last());
        }
        assert(s.drop_last().push(s.last()) =~= s);
        assert(seq![s.drop_last()].update(0, s) =~= seq![s]);
    } else {
        assert(s =~= Seq::<char>::empty());
    }
}

} // verus!

verus! {

/// Joining one part gives that part.
pub proof fn lemma_joined_single(x: Seq<char>, sep: Seq<char>)
    ensures
        joined(seq![x], sep) == x,
{
}

/// Joining keeps every part: one more part adds the separator and that part
/// at the end of what the others join to.
pub proof fn lemma_joined_push(parts: Seq<Seq<char>>, x: Seq<char>, sep: Seq<char>)
    requires
        parts.len() >= 1,
    ensures
        joined(parts.push(x), sep) == joined(parts, sep) + sep + x,
{
    assert(parts.push(x).drop_last() =~= parts);
    assert(parts.push(x).last() == x);
}

} // verus!
