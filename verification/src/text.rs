//! Verified text helpers: decimal and hexadecimal rendering of integers,
//! trimming, splitting, joining and searching of character strings.
//!
//! Contracts are stated over `Seq<char>` views; the executable code works on
//! `String` and `&str` through the operations that vstd specifies.

use vstd::prelude::*;

verus! {

/// The decimal digit character for a value below ten.
pub open spec fn digit_char(d: nat) -> char {
    if d == 0 {
        '0'
    } else if d == 1 {
        '1'
    } else if d == 2 {
        '2'
    } else if d == 3 {
        '3'
    } else if d == 4 {
        '4'
    } else if d == 5 {
        '5'
    } else if d == 6 {
        '6'
    } else if d == 7 {
        '7'
    } else if d == 8 {
        '8'
    } else {
        '9'
    }
}

/// The usual decimal rendering of a natural number, most significant digit
/// first, with no leading zeros (except for zero itself).
pub open spec fn dec_digits(n: nat) -> Seq<char>
    decreases n,
{
    if n < 10 {
        seq![digit_char(n)]
    } else {
        dec_digits(n / 10) + seq![digit_char(n % 10)]
    }
}

/// The digit characters of `ds` in reverse order: last element first.
pub open spec fn rev_digit_chars(ds: Seq<u64>) -> Seq<char>
    decreases ds.len(),
{
    if ds.len() == 0 {
        Seq::empty()
    } else {
        seq![digit_char(ds.last() as nat)] + rev_digit_chars(ds.drop_last())
    }
}

proof fn lemma_rev_digit_chars_skip(ds: Seq<u64>, i: int)
    requires
        0 <= i < ds.len(),
    ensures
        rev_digit_chars(ds.skip(i)) =~= rev_digit_chars(ds.skip(i + 1)) + seq![
            digit_char(ds[i] as nat),
        ],
    decreases ds.len() - i,
{
    let s = ds.skip(i);
    assert(s.len() >= 1);
    assert(s.last() == ds.last());
    if i + 1 == ds.len() {
        assert(s.len() == 1);
        assert(s.drop_last() =~= ds.skip(i + 1));
        assert(rev_digit_chars(ds.skip(i + 1)) =~= Seq::<char>::empty());
        assert(rev_digit_chars(s) =~= seq![digit_char(ds[i] as nat)]);
    } else {
        assert(s.drop_last() =~= ds.drop_last().skip(i));
        lemma_rev_digit_chars_skip(ds.drop_last(), i);
        assert(ds.drop_last().skip(i + 1) =~= ds.skip(i + 1).drop_last());
        assert(ds.drop_last()[i] == ds[i]);
        assert(rev_digit_chars(s) =~= seq![digit_char(ds.last() as nat)] + rev_digit_chars(
            ds.drop_last().skip(i),
        ));
        assert(rev_digit_chars(ds.skip(i + 1)) =~= seq![digit_char(ds.last() as nat)]
            + rev_digit_chars(ds.skip(i + 1).drop_last()));
    }
}

/// A one-character string slice holding the decimal digit for `d`.
pub fn digit_str(d: u64) -> (r: &'static str)
    requires
        d < 10,
    ensures
        r@ =~= seq![digit_char(d as nat)],
{
    proof {
        reveal_strlit("0");
        reveal_strlit("1");
        reveal_strlit("2");
        reveal_strlit("3");
        reveal_strlit("4");
        reveal_strlit("5");
        reveal_strlit("6");
        reveal_strlit("7");
        reveal_strlit("8");
        reveal_strlit("9");
    }
    if d == 0 {
        "0"
    } else if d == 1 {
        "1"
    } else if d == 2 {
        "2"
    } else if d == 3 {
        "3"
    } else if d == 4 {
        "4"
    } else if d == 5 {
        "5"
    } else if d == 6 {
        "6"
    } else if d == 7 {
        "7"
    } else if d == 8 {
        "8"
    } else {
        "9"
    }
}

/// Renders `n` in decimal.
pub fn u64_to_dec(n: u64) -> (r: String)
    ensures
        r@ == dec_digits(n as nat),
{
    let mut rest: u64 = n;
    // digits of the consumed suffix, least significant first
    let mut tail: Vec<u64> = Vec::new();
    while rest >= 10
        invariant
            forall|k: int| 0 <= k < tail@.len() ==> #[trigger] tail@[k] < 10,
            dec_digits(n as nat) =~= dec_digits(rest as nat) + rev_digit_chars(tail@),
        decreases rest,
    {
        let d: u64 = rest % 10;
        let prev: Ghost<u64> = Ghost(rest);
        let old_tail: Ghost<Seq<u64>> = Ghost(tail@);
        rest = rest / 10;
        tail.push(d);
        proof {
            assert(tail@.drop_last() =~= old_tail@);
            assert(rev_digit_chars(tail@) =~= seq![digit_char(d as nat)] + rev_digit_chars(
                tail@.drop_last(),
            ));
            assert(dec_digits(prev@ as nat) =~= dec_digits(rest as nat) + seq![
                digit_char(d as nat),
            ]);
            assert(dec_digits(n as nat) =~= dec_digits(rest as nat) + rev_digit_chars(tail@));
        }
    }
    let mut out = String::new();
    out.append(digit_str(rest));
    let mut i: usize = tail.len();
    proof {
        assert(tail@.skip(i as int) =~= Seq::<u64>::empty());
        assert(out@ =~= dec_digits(rest as nat) + rev_digit_chars(tail@.skip(i as int)));
    }
    while i > 0
        invariant
            i <= tail@.len(),
            forall|k: int| 0 <= k < tail@.len() ==> #[trigger] tail@[k] < 10,
            dec_digits(n as nat) =~= dec_digits(rest as nat) + rev_digit_chars(tail@),
            out@ =~= dec_digits(rest as nat) + rev_digit_chars(tail@.skip(i as int)),
        decreases i,
    {
        i = i - 1;
        let d = tail[i];
        proof {
            lemma_rev_digit_chars_skip(tail@, i as int);
        }
        out.append(digit_str(d));
    }
    proof {
        assert(tail@.skip(0) =~= tail@);
    }
    out
}

/// Renders `n` in decimal.
pub fn u16_to_dec(n: u16) -> (r: String)
    ensures
        r@ == dec_digits(n as nat),
{
    u64_to_dec(n as u64)
}

/// The lower-case hexadecimal digit character for a value below sixteen.
pub open spec fn hex_digit_char(d: nat) -> char {
    if d < 10 {
        digit_char(d)
    } else if d == 10 {
        'a'
    } else if d == 11 {
        'b'
    } else if d == 12 {
        'c'
    } else if d == 13 {
        'd'
    } else if d == 14 {
        'e'
    } else {
        'f'
    }
}

/// The hexadecimal rendering of `n` in exactly `w` digits, zero padded.
pub open spec fn hex_digits_fixed(n: nat, w: nat) -> Seq<char>
    decreases w,
{
    if w == 0 {
        Seq::empty()
    } else {
        hex_digits_fixed(n / 16, (w - 1) as nat) + seq![hex_digit_char(n % 16)]
    }
}

/// A one-character string slice holding the lower-case hexadecimal digit for `d`.
pub fn hex_digit_str(d: u64) -> (r: &'static str)
    requires
        d < 16,
    ensures
        r@ =~= seq![hex_digit_char(d as nat)],
{
    if d < 10 {
        digit_str(d)
    } else {
        proof {
            reveal_strlit("a");
            reveal_strlit("b");
            reveal_strlit("c");
            reveal_strlit("d");
            reveal_strlit("e");
            reveal_strlit("f");
        }
        if d == 10 {
            "a"
        } else if d == 11 {
            "b"
        } else if d == 12 {
            "c"
        } else if d == 13 {
            "d"
        } else if d == 14 {
            "e"
        } else {
            "f"
        }
    }
}

/// Renders `n` as exactly `width` lower-case hexadecimal digits, zero
/// padded.
pub fn u64_to_hex_width(n: u64, width: usize) -> (r: String)
    ensures
        r@ == hex_digits_fixed(n as nat, width as nat),
{
    let mut digits: Vec<u64> = Vec::new();
    let mut rest: u64 = n;
    let mut w: usize = 0;
    while w < width
        invariant
            w <= width,
            digits@.len() == w,
            forall|k: int| 0 <= k < digits@.len() ==> #[trigger] digits@[k] < 16,
            hex_digits_fixed(n as nat, width as nat) =~= hex_digits_fixed(
                rest as nat,
                (width - w) as nat,
            ) + hex_seq_rev(digits@),
        decreases width - w,
    {
        let d: u64 = rest % 16;
        let prev: Ghost<u64> = Ghost(rest);
        let old_digits: Ghost<Seq<u64>> = Ghost(digits@);
        rest = rest / 16;
        digits.push(d);
        w = w + 1;
        proof {
            assert(digits@.drop_last() =~= old_digits@);
            assert(hex_seq_rev(digits@) =~= seq![hex_digit_char(d as nat)] + hex_seq_rev(
                old_digits@,
            ));
            assert(hex_digits_fixed(prev@ as nat, (width - w + 1) as nat) =~= hex_digits_fixed(
                rest as nat,
                (width - w) as nat,
            ) + seq![hex_digit_char(d as nat)]);
            assert(hex_digits_fixed(n as nat, width as nat) =~= hex_digits_fixed(
                rest as nat,
                (width - w) as nat,
            ) + hex_seq_rev(digits@));
        }
    }
    let mut out = String::new();
    let mut i: usize = digits.len();
    proof {
        assert(hex_digits_fixed(rest as nat, 0) =~= Seq::<char>::empty());
        assert(digits@.skip(i as int) =~= Seq::<u64>::empty());
        assert(out@ =~= hex_seq_rev(digits@.skip(i as int)));
    }
    while i > 0
        invariant
            i <= digits@.len(),
            forall|k: int| 0 <= k < digits@.len() ==> #[trigger] digits@[k] < 16,
            hex_digits_fixed(n as nat, width as nat) =~= hex_seq_rev(digits@),
            out@ =~= hex_seq_rev(digits@.skip(i as int)),
        decreases i,
    {
        i = i - 1;
        let d = digits[i];
        proof {
            lemma_hex_seq_rev_skip(digits@, i as int);
        }
        out.append(hex_digit_str(d));
    }
    proof {
        assert(digits@.skip(0) =~= digits@);
    }
    out
}

/// Renders `n` as sixteen lower-case hexadecimal digits, zero padded.
pub fn u64_to_hex16(n: u64) -> (r: String)
    ensures
        r@ == hex_digits_fixed(n as nat, 16),
{
    u64_to_hex_width(n, 16)
}

/// Renders `n` as four lower-case hexadecimal digits, zero padded.
pub fn u64_to_hex4(n: u64) -> (r: String)
    ensures
        r@ == hex_digits_fixed(n as nat, 4),
{
    u64_to_hex_width(n, 4)
}

/// The hexadecimal digit characters of `ds` in reverse order: last element first.
pub open spec fn hex_seq_rev(ds: Seq<u64>) -> Seq<char>
    decreases ds.len(),
{
    if ds.len() == 0 {
        Seq::empty()
    } else {
        seq![hex_digit_char(ds.last() as nat)] + hex_seq_rev(ds.drop_last())
    }
}

proof fn lemma_hex_seq_rev_skip(ds: Seq<u64>, i: int)
    requires
        0 <= i < ds.len(),
    ensures
        hex_seq_rev(ds.skip(i)) =~= hex_seq_rev(ds.skip(i + 1)) + seq![hex_digit_char(ds[i] as nat)],
    decreases ds.len() - i,
{
    let s = ds.skip(i);
    assert(s.last() == ds.last());
    if i + 1 == ds.len() {
        assert(s.drop_last() =~= ds.skip(i + 1));
        assert(hex_seq_rev(ds.skip(i + 1)) =~= Seq::<char>::empty());
    } else {
        assert(s.drop_last() =~= ds.drop_last().skip(i));
        lemma_hex_seq_rev_skip(ds.drop_last(), i);
        assert(ds.drop_last().skip(i + 1) =~= ds.skip(i + 1).drop_last());
        assert(ds.drop_last()[i] == ds[i]);
        assert(hex_seq_rev(s) =~= seq![hex_digit_char(ds.last() as nat)] + hex_seq_rev(
            ds.drop_last().skip(i),
        ));
        assert(hex_seq_rev(ds.skip(i + 1)) =~= seq![hex_digit_char(ds.last() as nat)] + hex_seq_rev(
            ds.skip(i + 1).drop_last(),
        ));
    }
}

/// Whether two string slices hold the same characters.
pub fn str_eq(a: &str, b: &str) -> (r: bool)
    ensures
        r == (a@ == b@),
{
    let a_len = a.unicode_len();
    let b_len = b.unicode_len();
    if a_len != b_len {
        return false;
    }
    let mut i: usize = 0;
    while i < a_len
        invariant
            i <= a_len,
            a_len == a@.len(),
            a_len == b@.len(),
            forall|k: int| 0 <= k < i ==> a@[k] == b@[k],
        decreases a_len - i,
    {
        if a.get_char(i) != b.get_char(i) {
            return false;
        }
        i = i + 1;
    }
    proof {
        assert(a@ =~= b@);
    }
    true
}

/// The index of the first occurrence of `c` in `s`, or the length of `s`
/// where `c` does not occur.
pub open spec fn find_first(s: Seq<char>, c: char) -> int
    decreases s.len(),
{
    if s.len() == 0 {
        0
    } else if s[0] == c {
        0
    } else {
        1 + find_first(s.skip(1), c)
    }
}

pub proof fn lemma_find_first(s: Seq<char>, c: char)
    ensures
        0 <= find_first(s, c) <= s.len(),
        find_first(s, c) < s.len() ==> s[find_first(s, c)] == c,
        forall|k: int| 0 <= k < find_first(s, c) ==> s[k] != c,
    decreases s.len(),
{
    if s.len() > 0 && s[0] != c {
        lemma_find_first(s.skip(1), c);
        assert forall|k: int| 0 <= k < find_first(s, c) implies s[k] != c by {
            if k > 0 {
                assert(s.skip(1)[k - 1] != c);
            }
        }
    }
}

proof fn lemma_find_first_at(s: Seq<char>, c: char, j: int)
    requires
        0 <= j <= s.len(),
        forall|k: int| 0 <= k < j ==> s[k] != c,
        j < s.len() ==> s[j] == c,
    ensures
        find_first(s, c) == j,
    decreases s.len(),
{
    if s.len() == 0 {
    } else if s[0] == c {
    } else {
        assert forall|k: int| 0 <= k < j - 1 implies s.skip(1)[k] != c by {
            assert(s[k + 1] != c);
        }
        lemma_find_first_at(s.skip(1), c, j - 1);
    }
}

/// The pieces of `s` between occurrences of the separator `c`.
pub open spec fn split_by(s: Seq<char>, c: char) -> Seq<Seq<char>>
    decreases s.len(),
{
    let i = find_first(s, c);
    if 0 <= i < s.len() {
        seq![s.take(i)] + split_by(s.skip(i + 1), c)
    } else {
        seq![s]
    }
}

pub proof fn lemma_split_by_len(s: Seq<char>, c: char)
    ensures
        split_by(s, c).len() >= 1,
    decreases s.len(),
{
    lemma_find_first(s, c);
    let i = find_first(s, c);
    if i < s.len() {
        lemma_split_by_len(s.skip(i + 1), c);
    }
}

/// Splits `s` at every occurrence of `c`.
pub fn split_char(s: &str, c: char) -> (r: Vec<String>)
    ensures
        r@.map_values(|p: String| p@) == split_by(s@, c),
{
    let len = s.unicode_len();
    let mut pieces: Vec<String> = Vec::new();
    let mut start: usize = 0;
    let mut j: usize = 0;
    proof {
        assert(pieces@.map_values(|p: String| p@) =~= Seq::<Seq<char>>::empty());
        assert(s@.skip(0) =~= s@);
    }
    while j < len
        invariant
            start <= j <= len,
            len == s@.len(),
            forall|k: int| start <= k < j ==> s@[k] != c,
            split_by(s@, c) =~= pieces@.map_values(|p: String| p@) + split_by(
                s@.skip(start as int),
                c,
            ),
        decreases len - j,
    {
        if s.get_char(j) == c {
            let piece = s.substring_char(start, j);
            let old_pieces: Ghost<Seq<String>> = Ghost(pieces@);
            pieces.push(piece.to_owned());
            proof {
                let tail = s@.skip(start as int);
                assert forall|k: int| 0 <= k < j - start implies tail[k] != c by {
                    assert(s@[start + k] != c);
                }
                assert(tail[j - start] == c);
                lemma_find_first_at(tail, c, j - start);
                assert(tail.take(j - start) =~= s@.subrange(start as int, j as int));
                assert(tail.skip(j - start + 1) =~= s@.skip(j as int + 1));
                assert(split_by(tail, c) =~= seq![s@.subrange(start as int, j as int)] + split_by(
                    s@.skip(j as int + 1),
                    c,
                ));
                assert(pieces@.map_values(|p: String| p@) =~= old_pieces@.map_values(
                    |p: String| p@,
                ) + seq![s@.subrange(start as int, j as int)]);
                assert(split_by(s@, c) =~= pieces@.map_values(|p: String| p@) + split_by(
                    s@.skip(j as int + 1),
                    c,
                ));
            }
            start = j + 1;
        }
        j = j + 1;
    }
    let piece = s.substring_char(start, len);
    let old_pieces: Ghost<Seq<String>> = Ghost(pieces@);
    pieces.push(piece.to_owned());
    proof {
        let tail = s@.skip(start as int);
        assert forall|k: int| 0 <= k < tail.len() implies tail[k] != c by {
            assert(s@[start + k] != c);
        }
        lemma_find_first_at(tail, c, tail.len() as int);
        assert(split_by(tail, c) =~= seq![tail]);
        assert(tail =~= s@.subrange(start as int, len as int));
        assert(pieces@.map_values(|p: String| p@) =~= old_pieces@.map_values(|p: String| p@)
            + seq![tail]);
        assert(split_by(s@, c) =~= pieces@.map_values(|p: String| p@));
    }
    pieces
}

/// The parts joined with the separator between consecutive parts.
pub open spec fn joined(parts: Seq<Seq<char>>, sep: Seq<char>) -> Seq<char>
    decreases parts.len(),
{
    if parts.len() == 0 {
        Seq::empty()
    } else if parts.len() == 1 {
        parts[0]
    } else {
        parts[0] + sep + joined(parts.skip(1), sep)
    }
}

proof fn lemma_joined_take(parts: Seq<Seq<char>>, sep: Seq<char>, i: int)
    requires
        1 <= i < parts.len(),
    ensures
        joined(parts.take(i + 1), sep) =~= joined(parts.take(i), sep) + sep + parts[i],
    decreases i,
{
    if i == 1 {
        assert(joined(parts.take(2), sep) =~= parts[0] + sep + joined(
            parts.take(2).skip(1),
            sep,
        ));
        assert(parts.take(2).skip(1) =~= seq![parts[1]]);
        assert(joined(parts.take(1), sep) =~= parts[0]);
    } else {
        lemma_joined_take(parts.skip(1), sep, i - 1);
        assert(parts.take(i + 1).skip(1) =~= parts.skip(1).take(i));
        assert(parts.take(i).skip(1) =~= parts.skip(1).take(i - 1));
        assert(parts.skip(1)[i - 1] == parts[i]);
        assert(joined(parts.take(i + 1), sep) =~= parts[0] + sep + joined(
            parts.skip(1).take(i),
            sep,
        ));
        assert(joined(parts.take(i), sep) =~= parts[0] + sep + joined(
            parts.skip(1).take(i - 1),
            sep,
        ));
    }
}

/// Joins the parts with the separator between consecutive parts.
pub fn join_with(parts: &Vec<String>, sep: &str) -> (r: String)
    ensures
        r@ == joined(parts@.map_values(|p: String| p@), sep@),
{
    let ghost view = parts@.map_values(|p: String| p@);
    let mut out = String::new();
    if parts.len() == 0 {
        return out;
    }
    out.append(parts[0].as_str());
    let mut i: usize = 1;
    proof {
        assert(view.take(1) =~= seq![view[0]]);
        assert(out@ =~= joined(view.take(1), sep@));
    }
    while i < parts.len()
        invariant
            1 <= i <= parts@.len(),
            view == parts@.map_values(|p: String| p@),
            out@ =~= joined(view.take(i as int), sep@),
        decreases parts@.len() - i,
    {
        out.append(sep);
        out.append(parts[i].as_str());
        proof {
            lemma_joined_take(view, sep@, i as int);
        }
        i = i + 1;
    }
    proof {
        assert(view.take(view.len() as int) =~= view);
    }
    out
}

/// Whitespace as the trimming functions understand it.
pub open spec fn is_space(c: char) -> bool {
    c == ' ' || c == '\t' || c == '\n' || c == '\r'
}

/// The index of the first non-whitespace character, or the length of `s`.
pub open spec fn first_non_space(s: Seq<char>, from: int) -> int
    decreases s.len() - from,
{
    if from < 0 || from >= s.len() {
        s.len() as int
    } else if is_space(s[from]) {
        first_non_space(s, from + 1)
    } else {
        from
    }
}

/// One past the index of the last non-whitespace character, or zero.
pub open spec fn last_non_space(s: Seq<char>, upto: int) -> int
    decreases upto,
{
    if upto <= 0 || upto > s.len() {
        0
    } else if is_space(s[upto - 1]) {
        last_non_space(s, upto - 1)
    } else {
        upto
    }
}

/// `s` with leading and trailing whitespace removed.
pub open spec fn trimmed(s: Seq<char>) -> Seq<char> {
    let a = first_non_space(s, 0);
    if a == s.len() {
        Seq::empty()
    } else {
        s.subrange(a, last_non_space(s, s.len() as int))
    }
}

proof fn lemma_first_non_space(s: Seq<char>, from: int)
    requires
        0 <= from <= s.len(),
    ensures
        from <= first_non_space(s, from) <= s.len(),
        first_non_space(s, from) < s.len() ==> !is_space(s[first_non_space(s, from)]),
        forall|k: int| from <= k < first_non_space(s, from) ==> is_space(s[k]),
    decreases s.len() - from,
{
    if from < s.len() && is_space(s[from]) {
        lemma_first_non_space(s, from + 1);
    }
}

proof fn lemma_last_non_space(s: Seq<char>, upto: int)
    requires
        0 <= upto <= s.len(),
    ensures
        0 <= last_non_space(s, upto) <= upto,
        last_non_space(s, upto) > 0 ==> !is_space(s[last_non_space(s, upto) - 1]),
        forall|k: int| last_non_space(s, upto) <= k < upto ==> is_space(s[k]),
    decreases upto,
{
    if upto > 0 && is_space(s[upto - 1]) {
        lemma_last_non_space(s, upto - 1);
    }
}

/// Whether `c` counts as whitespace for trimming.
pub fn space_char(c: char) -> (r: bool)
    ensures
        r == is_space(c),
{
    c == ' ' || c == '\t' || c == '\n' || c == '\r'
}

/// `s` with leading and trailing whitespace removed.
pub fn trim_str(s: &str) -> (r: String)
    ensures
        r@ == trimmed(s@),
{
    let len = s.unicode_len();
    let mut a: usize = 0;
    while a < len && space_char(s.get_char(a))
        invariant
            a <= len,
            len == s@.len(),
            first_non_space(s@, 0) == first_non_space(s@, a as int),
        decreases len - a,
    {
        a = a + 1;
    }
    if a == len {
        proof {
            lemma_first_non_space(s@, a as int);
        }
        return String::new();
    }
    let mut b: usize = len;
    while b > a && space_char(s.get_char(b - 1))
        invariant
            a < b <= len,
            len == s@.len(),
            a as int == first_non_space(s@, 0),
            a < len,
            !is_space(s@[a as int]),
            last_non_space(s@, len as int) == last_non_space(s@, b as int),
        decreases b,
    {
        b = b - 1;
    }
    proof {
        lemma_first_non_space(s@, a as int);
        lemma_last_non_space(s@, b as int);
        assert(!is_space(s@[a as int]));
        assert(last_non_space(s@, b as int) == b);
    }
    let piece = s.substring_char(a, b);
    piece.to_owned()
}

/// Whether `p` occurs in `s` starting at index `at`.
pub open spec fn matches_at(s: Seq<char>, p: Seq<char>, at: int) -> bool {
    0 <= at && at + p.len() <= s.len() && s.subrange(at, at + p.len()) == p
}

/// Whether `p` occurs anywhere in `s`.
pub open spec fn contains_seq(s: Seq<char>, p: Seq<char>) -> bool {
    exists|at: int| matches_at(s, p, at)
}

/// Whether `p` occurs in `s` starting at character index `at`.
pub fn has_match_at(s: &str, p: &str, at: usize) -> (r: bool)
    requires
        at + p@.len() <= s@.len(),
    ensures
        r == matches_at(s@, p@, at as int),
{
    let s_len = s.unicode_len();
    let p_len = p.unicode_len();
    let mut k: usize = 0;
    while k < p_len
        invariant
            k <= p_len,
            s_len == s@.len(),
            p_len == p@.len(),
            at + p_len <= s_len,
            forall|m: int| 0 <= m < k ==> s@[at + m] == p@[m],
        decreases p_len - k,
    {
        if s.get_char(at + k) != p.get_char(k) {
            assert(s@.subrange(at as int, at + p@.len())[k as int] != p@[k as int]);
            return false;
        }
        k = k + 1;
    }
    proof {
        assert(s@.subrange(at as int, at + p@.len()) =~= p@);
    }
    true
}

/// Whether `p` occurs anywhere in `s`.
pub fn contains_str(s: &str, p: &str) -> (r: bool)
    ensures
        r == contains_seq(s@, p@),
{
    let s_len = s.unicode_len();
    let p_len = p.unicode_len();
    if p_len > s_len {
        assert(!contains_seq(s@, p@)) by {
            assert(forall|at: int| !matches_at(s@, p@, at));
        }
        return false;
    }
    if p_len == 0 {
        assert(matches_at(s@, p@, 0)) by {
            assert(s@.subrange(0, 0) =~= p@);
        }
        return true;
    }
    let mut at: usize = 0;
    while at <= s_len - p_len
        invariant
            at as int <= s_len - p_len + 1,
            s_len == s@.len(),
            p_len == p@.len(),
            1 <= p_len <= s_len,
            forall|m: int| 0 <= m < at ==> !matches_at(s@, p@, m),
        decreases s_len - at,
    {
        if has_match_at(s, p, at) {
            return true;
        }
        at = at + 1;
    }
    assert forall|m: int| !(#[trigger] matches_at(s@, p@, m)) by {
        if m > s_len - p_len {
            assert(!matches_at(s@, p@, m));
        }
    }
    false
}

/// `s` with every occurrence of `p` removed, scanning left to right.
pub open spec fn without_pattern(s: Seq<char>, p: Seq<char>) -> Seq<char>
    decreases s.len(),
{
    if p.len() == 0 || s.len() < p.len() {
        s
    } else if s.take(p.len() as int) == p {
        without_pattern(s.skip(p.len() as int), p)
    } else {
        seq![s[0]] + without_pattern(s.skip(1), p)
    }
}

/// Removes every occurrence of `p` from `s`, scanning left to right.
pub fn remove_all(s: &str, p: &str) -> (r: String)
    requires
        p@.len() >= 1,
    ensures
        r@ == without_pattern(s@, p@),
{
    let s_len = s.unicode_len();
    let p_len = p.unicode_len();
    let mut out = String::new();
    let mut i: usize = 0;
    proof {
        assert(s@.skip(0) =~= s@);
    }
    while i < s_len
        invariant
            i <= s_len,
            s_len == s@.len(),
            p_len == p@.len(),
            p_len >= 1,
            without_pattern(s@, p@) =~= out@ + without_pattern(s@.skip(i as int), p@),
        decreases s_len - i,
    {
        let tail_matches = if p_len <= s_len - i {
            has_match_at(s, p, i)
        } else {
            false
        };
        if tail_matches {
            proof {
                let tail = s@.skip(i as int);
                assert(tail.take(p@.len() as int) =~= s@.subrange(i as int, i + p@.len()));
                assert(tail.skip(p@.len() as int) =~= s@.skip(i + p@.len()));
                assert(without_pattern(tail, p@) == without_pattern(s@.skip(i + p@.len()), p@));
            }
            i = i + p_len;
        } else {
            let piece = s.substring_char(i, i + 1);
            out.append(piece);
            proof {
                let tail = s@.skip(i as int);
                if i + p_len <= s_len {
                    assert(tail.take(p@.len() as int) =~= s@.subrange(i as int, i + p@.len()));
                }
                assert(tail.skip(1) =~= s@.skip(i as int + 1));
                assert(seq![tail[0]] =~= s@.subrange(i as int, i as int + 1));
                assert(without_pattern(tail, p@) =~= seq![tail[0]] + without_pattern(
                    s@.skip(i as int + 1),
                    p@,
                ));
            }
            i = i + 1;
        }
    }
    proof {
        assert(s@.skip(s_len as int) =~= Seq::<char>::empty());
    }
    out
}

/// A sequence of `n` space characters.
pub open spec fn spaces(n: nat) -> Seq<char>
    decreases n,
{
    if n == 0 {
        Seq::empty()
    } else {
        spaces((n - 1) as nat) + seq![' ']
    }
}

/// `s` padded on the left with spaces to at least `width` characters.
pub open spec fn padded_left(s: Seq<char>, width: nat) -> Seq<char> {
    if s.len() >= width {
        s
    } else {
        spaces((width - s.len()) as nat) + s
    }
}

/// Pads `s` on the left with spaces to at least `width` characters.
pub fn pad_left(s: &str, width: usize) -> (r: String)
    ensures
        r@ == padded_left(s@, width as nat),
{
    let len = s.unicode_len();
    let mut out = String::new();
    if len >= width {
        out.append(s);
        return out;
    }
    let mut k: usize = 0;
    while k < width - len
        invariant
            k <= width - len,
            len == s@.len(),
            len < width,
            out@ =~= spaces(k as nat),
        decreases width - len - k,
    {
        out.append(" ");
        k = k + 1;
        proof {
            reveal_strlit(" ");
            assert((" ")@ =~= seq![' ']);
        }
    }
    out.append(s);
    out
}

/// `unit` repeated `n` times.
pub open spec fn repeated(unit: Seq<char>, n: nat) -> Seq<char>
    decreases n,
{
    if n == 0 {
        Seq::empty()
    } else {
        repeated(unit, (n - 1) as nat) + unit
    }
}

/// Repeats `unit` `n` times.
pub fn repeat_str(unit: &str, n: usize) -> (r: String)
    ensures
        r@ == repeated(unit@, n as nat),
{
    let mut out = String::new();
    let mut k: usize = 0;
    while k < n
        invariant
            k <= n,
            out@ =~= repeated(unit@, k as nat),
        decreases n - k,
    {
        out.append(unit);
        k = k + 1;
    }
    out
}

/// The numeric value of a decimal digit character; ten for other characters.
pub open spec fn digit_value(c: char) -> nat {
    if c == '0' {
        0
    } else if c == '1' {
        1
    } else if c == '2' {
        2
    } else if c == '3' {
        3
    } else if c == '4' {
        4
    } else if c == '5' {
        5
    } else if c == '6' {
        6
    } else if c == '7' {
        7
    } else if c == '8' {
        8
    } else if c == '9' {
        9
    } else {
        10
    }
}

/// Whether every character of `s` is a decimal digit.
pub open spec fn all_digits(s: Seq<char>) -> bool {
    forall|k: int| 0 <= k < s.len() ==> digit_value(#[trigger] s[k]) < 10
}

/// The numeric value of a digit string, most significant digit first.
pub open spec fn dec_value(s: Seq<char>) -> nat
    decreases s.len(),
{
    if s.len() == 0 {
        0
    } else {
        dec_value(s.drop_last()) * 10 + digit_value(s.last())
    }
}

proof fn lemma_dec_value_monotonic(s: Seq<char>, i: int)
    requires
        0 <= i <= s.len(),
    ensures
        dec_value(s.take(i)) <= dec_value(s),
    decreases s.len() - i,
{
    if i < s.len() {
        lemma_dec_value_monotonic(s, i + 1);
        assert(s.take(i + 1).drop_last() =~= s.take(i));
        assert(dec_value(s.take(i + 1)) == dec_value(s.take(i)) * 10 + digit_value(s[i]));
    } else {
        assert(s.take(i) =~= s);
    }
}

/// The numeric value of a decimal digit character, or ten.
pub fn digit_value_of(c: char) -> (r: u64)
    ensures
        r == digit_value(c),
{
    if c == '0' {
        0
    } else if c == '1' {
        1
    } else if c == '2' {
        2
    } else if c == '3' {
        3
    } else if c == '4' {
        4
    } else if c == '5' {
        5
    } else if c == '6' {
        6
    } else if c == '7' {
        7
    } else if c == '8' {
        8
    } else if c == '9' {
        9
    } else {
        10
    }
}

/// Parses a decimal number. Fails on an empty string, on any non-digit
/// character, and on values above `u64::MAX`.
pub fn parse_u64(s: &str) -> (r: Option<u64>)
    ensures
        r is Some <==> s@.len() > 0 && all_digits(s@) && dec_value(s@) <= u64::MAX,
        r is Some ==> r->0 == dec_value(s@),
{
    let len = s.unicode_len();
    if len == 0 {
        return None;
    }
    let mut v: u64 = 0;
    let mut i: usize = 0;
    proof {
        assert(s@.take(0) =~= Seq::<char>::empty());
    }
    while i < len
        invariant
            i <= len,
            len == s@.len(),
            all_digits(s@.take(i as int)),
            v == dec_value(s@.take(i as int)),
        decreases len - i,
    {
        let c = s.get_char(i);
        let d = digit_value_of(c);
        if d >= 10 {
            assert(!all_digits(s@)) by {
                assert(digit_value(s@[i as int]) >= 10);
            }
            return None;
        }
        if v > u64::MAX / 10 || (v == u64::MAX / 10 && d > u64::MAX % 10) {
            proof {
                assert(s@.take(i as int + 1).drop_last() =~= s@.take(i as int));
                assert(dec_value(s@.take(i as int + 1)) > u64::MAX);
                lemma_dec_value_monotonic(s@, i as int + 1);
            }
            return None;
        }
        proof {
            assert(s@.take(i as int + 1).drop_last() =~= s@.take(i as int));
        }
        v = v * 10 + d;
        i = i + 1;
        assert(all_digits(s@.take(i as int))) by {
            assert(forall|k: int|
                0 <= k < i ==> s@.take(i as int)[k] == #[trigger] s@.take(i as int - 1 + 1)[k]);
        }
    }
    proof {
        assert(s@.take(len as int) =~= s@);
    }
    Some(v)
}

/// The index right after the whitespace-free token starting at `i`: the
/// first index at or past `i` holding whitespace, or the length of `s`.
pub open spec fn token_end(s: Seq<char>, i: int) -> int
    decreases s.len() - i,
{
    if i < 0 || i >= s.len() {
        s.len() as int
    } else if is_space(s[i]) {
        i
    } else {
        token_end(s, i + 1)
    }
}

pub proof fn lemma_token_end(s: Seq<char>, i: int)
    requires
        0 <= i <= s.len(),
    ensures
        i <= token_end(s, i) <= s.len(),
        i < s.len() && !is_space(s[i]) ==> token_end(s, i) >= i + 1,
        token_end(s, i) < s.len() ==> is_space(s[token_end(s, i)]),
        forall|k: int| i <= k < token_end(s, i) ==> !is_space(s[k]),
    decreases s.len() - i,
{
    if i < s.len() && !is_space(s[i]) {
        lemma_token_end(s, i + 1);
    }
}

/// The maximal whitespace-free tokens of `s` from index `i` on, in order.
pub open spec fn tokens_from(s: Seq<char>, i: int) -> Seq<Seq<char>>
    decreases s.len() - i,
{
    if i < 0 || i >= s.len() {
        Seq::empty()
    } else if is_space(s[i]) {
        tokens_from(s, i + 1)
    } else {
        seq![s.subrange(i, spaced_end(s, i))] + tokens_from(s, spaced_end(s, i))
    }
}

/// `token_end` guarded so that recursion visibly advances and stays in
/// bounds.
pub open spec fn spaced_end(s: Seq<char>, i: int) -> int {
    if i < token_end(s, i) <= s.len() {
        token_end(s, i)
    } else {
        i + 1
    }
}

/// The whitespace-separated tokens of `s`.
pub open spec fn ws_tokens(s: Seq<char>) -> Seq<Seq<char>> {
    tokens_from(s, 0)
}

/// Splits `s` at whitespace runs, dropping empty pieces.
pub fn split_whitespace(s: &str) -> (r: Vec<String>)
    ensures
        r@.map_values(|p: String| p@) == ws_tokens(s@),
{
    let len = s.unicode_len();
    let mut pieces: Vec<String> = Vec::new();
    let mut i: usize = 0;
    proof {
        assert(pieces@.map_values(|p: String| p@) =~= Seq::<Seq<char>>::empty());
        assert(tokens_from(s@, 0) =~= pieces@.map_values(|p: String| p@) + tokens_from(
            s@,
            0,
        ));
    }
    while i < len
        invariant
            i <= len,
            len == s@.len(),
            tokens_from(s@, 0) =~= pieces@.map_values(|p: String| p@) + tokens_from(s@, i as int),
        decreases len - i,
    {
        if space_char(s.get_char(i)) {
            i = i + 1;
        } else {
            let mut j: usize = i + 1;
            while j < len && !space_char(s.get_char(j))
                invariant
                    i < j <= len,
                    len == s@.len(),
                    forall|k: int| i <= k < j ==> !is_space(s@[k]),
                decreases len - j,
            {
                j = j + 1;
            }
            proof {
                lemma_token_end_at(s@, i as int, j as int);
                assert(spaced_end(s@, i as int) == j as int);
            }
            let piece = s.substring_char(i, j);
            let old_pieces: Ghost<Seq<String>> = Ghost(pieces@);
            pieces.push(piece.to_owned());
            proof {
                assert(pieces@.map_values(|p: String| p@) =~= old_pieces@.map_values(
                    |p: String| p@,
                ) + seq![s@.subrange(i as int, j as int)]);
                assert(tokens_from(s@, i as int) =~= seq![s@.subrange(i as int, j as int)]
                    + tokens_from(s@, j as int));
                assert(tokens_from(s@, 0) =~= pieces@.map_values(|p: String| p@) + tokens_from(
                    s@,
                    j as int,
                ));
            }
            i = j;
        }
    }
    proof {
        assert(tokens_from(s@, len as int) =~= Seq::<Seq<char>>::empty());
    }
    pieces
}

proof fn lemma_token_end_at(s: Seq<char>, i: int, j: int)
    requires
        0 <= i < j <= s.len(),
        !is_space(s[i]),
        forall|k: int| i <= k < j ==> !is_space(s[k]),
        j < s.len() ==> is_space(s[j]),
    ensures
        token_end(s, i) == j,
    decreases j - i,
{
    assert(!is_space(s[i]));
    if i + 1 == j {
        assert(token_end(s, i) == token_end(s, i + 1));
        if j < s.len() {
            assert(token_end(s, j) == j);
        } else {
            assert(token_end(s, j) == s.len());
        }
    } else {
        assert(forall|k: int| i + 1 <= k < j ==> !is_space(s[k]));
        lemma_token_end_at(s, i + 1, j);
        assert(token_end(s, i) == token_end(s, i + 1));
    }
}

/// The big-endian value of a byte string.
pub open spec fn be_value(bytes: Seq<u8>) -> nat
    decreases bytes.len(),
{
    if bytes.len() == 0 {
        0
    } else {
        be_value(bytes.drop_last()) * 256 + bytes.last() as nat
    }
}

proof fn lemma_be_value_bound(bytes: Seq<u8>, bound: nat)
    requires
        pow256(bytes.len()) == bound,
    ensures
        be_value(bytes) < bound,
    decreases bytes.len(),
{
    if bytes.len() == 0 {
    } else {
        lemma_be_value_bound(bytes.drop_last(), pow256((bytes.len() - 1) as nat));
        assert(be_value(bytes.drop_last()) * 256 + 256 <= pow256((bytes.len() - 1) as nat) * 256)
            by (nonlinear_arith)
            requires
                be_value(bytes.drop_last()) + 1 <= pow256((bytes.len() - 1) as nat),
        ;
    }
}

/// Two hundred fifty-six to the power `n`.
pub open spec fn pow256(n: nat) -> nat
    decreases n,
{
    if n == 0 {
        1
    } else {
        256 * pow256((n - 1) as nat)
    }
}

/// The big-endian value of the first eight bytes, when there are eight.
pub fn be_u64(bytes: &Vec<u8>) -> (r: Option<u64>)
    ensures
        r is Some <==> bytes@.len() >= 8,
        r is Some ==> r->0 == be_value(bytes@.take(8)),
{
    if bytes.len() < 8 {
        return None;
    }
    let mut acc: u64 = 0;
    let mut i: usize = 0;
    proof {
        assert(bytes@.take(0) =~= Seq::<u8>::empty());
    }
    while i < 8
        invariant
            i <= 8,
            bytes@.len() >= 8,
            acc == be_value(bytes@.take(i as int)),
        decreases 8 - i,
    {
        let b = bytes[i];
        proof {
            lemma_be_value_bound(bytes@.take(i as int), pow256(i as nat));
            assert(pow256(7) == 0x100000000000000) by {
                assert(pow256(0) == 1);
                assert(pow256(1) == 256);
                assert(pow256(2) == 0x10000);
                assert(pow256(3) == 0x1000000);
                assert(pow256(4) == 0x100000000);
                assert(pow256(5) == 0x10000000000);
                assert(pow256(6) == 0x1000000000000);
            }
            assert(pow256(i as nat) <= pow256(7)) by {
                lemma_pow256_monotonic(i as nat, 7);
            }
            assert(bytes@.take(i as int + 1).drop_last() =~= bytes@.take(i as int));
        }
        acc = acc * 256 + (b as u64);
        i = i + 1;
    }
    proof {
        assert(bytes@.take(8) =~= bytes@.take(8));
    }
    Some(acc)
}

proof fn lemma_pow256_monotonic(a: nat, b: nat)
    requires
        a <= b,
    ensures
        pow256(a) <= pow256(b),
    decreases b,
{
    if a < b {
        lemma_pow256_monotonic(a, (b - 1) as nat);
        assert(pow256(b) == 256 * pow256((b - 1) as nat));
        assert(pow256((b - 1) as nat) <= 256 * pow256((b - 1) as nat)) by (nonlinear_arith)
            requires
                pow256((b - 1) as nat) >= 0,
        ;
    }
}

/// A line clipped to `width` characters: longer lines keep their first
/// `width - 3` characters and end with an ellipsis.
pub open spec fn clipped_line(l: Seq<char>, width: nat) -> Seq<char> {
    if l.len() <= width {
        l
    } else {
        l.take(width - 3) + seq!['.', '.', '.']
    }
}

/// Clips one line to `width` characters, marking elided text with an ellipsis.
pub fn clip_line(l: &str, width: usize) -> (r: String)
    requires
        width >= 3,
    ensures
        r@ == clipped_line(l@, width as nat),
{
    let len = l.unicode_len();
    if len <= width {
        l.to_owned()
    } else {
        let head = l.substring_char(0, width - 3);
        let mut out = head.to_owned();
        out.append("...");
        proof {
            reveal_strlit("...");
            assert(("...")@ =~= seq!['.', '.', '.']);
            assert(l@.take(width - 3) =~= l@.subrange(0, width as int - 3));
        }
        out
    }
}

} // verus!
