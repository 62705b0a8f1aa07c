//! Character-level building blocks for the textual forms of addresses and
//! numbers: digits, decimal and hexadecimal numerals, and field splitting.
use vstd::prelude::*;

verus! {

/// Whether `c` is one of `0`..`9`.
pub open spec fn is_decimal_digit(c: char) -> bool {
    '0' as int <= c as int <= '9' as int
}

/// Whether `c` is a hexadecimal digit, in either case.
pub open spec fn is_hex_digit(c: char) -> bool {
    ||| is_decimal_digit(c)
    ||| 'a' as int <= c as int <= 'f' as int
    ||| 'A' as int <= c as int <= 'F' as int
}

/// The number a hexadecimal digit stands for (decimal digits included).
pub open spec fn digit_value(c: char) -> nat {
    if is_decimal_digit(c) {
        (c as int - '0' as int) as nat
    } else if 'a' as int <= c as int <= 'f' as int {
        (c as int - 'a' as int + 10) as nat
    } else {
        (c as int - 'A' as int + 10) as nat
    }
}

/// The lower-case digit that stands for `d`, for `d < 16`.
pub open spec fn digit_char(d: nat) -> char {
    if d < 10 {
        (d + '0' as int) as char
    } else {
        (d - 10 + 'a' as int) as char
    }
}

/// Copies the characters of a string slice into a vector.
pub fn to_chars(s: &str) -> (v: Vec<char>)
    ensures
        v@ == s@,
{
    let mut v: Vec<char> = Vec::new();
    for c in it: s.chars()
        invariant
            it.seq() == s@,
            v@ == it.seq().take(it.index() as int),
    {
        v.push(c);
    }
    v
}

/// Whether two runs of characters are the same.
pub fn chars_eq(a: &[char], b: &[char]) -> (r: bool)
    ensures
        r == (a@ == b@),
{
    if a.len() != b.len() {
        return false;
    }
    let mut i: usize = 0;
    while i < a.len()
        invariant
            a.len() == b.len(),
            i <= a.len(),
            a@.take(i as int) == b@.take(i as int),
        decreases a.len() - i,
    {
        if a[i] != b[i] {
            return false;
        }
        assert(a@.take(i + 1) =~= a@.take(i as int).push(a@[i as int]));
        assert(b@.take(i + 1) =~= b@.take(i as int).push(b@[i as int]));
        i = i + 1;
    }
    assert(a@.take(i as int) =~= a@);
    assert(b@.take(i as int) =~= b@);
    true
}

/// Whether two strings hold the same characters.
pub fn str_eq(a: &str, b: &str) -> (r: bool)
    ensures
        r == (a@ == b@),
{
    let x = to_chars(a);
    let y = to_chars(b);
    chars_eq(x.as_slice(), y.as_slice())
}

/// A copy of a list of strings.
pub fn clone_strings(items: &Vec<String>) -> (r: Vec<String>)
    ensures
        view_each(r@) == view_each(items@),
{
    let mut r: Vec<String> = Vec::new();
    let mut i: usize = 0;
    while i < items.len()
        invariant
            i <= items.len(),
            r.len() == i,
            forall|j: int| 0 <= j < i ==> r[j]@ == items[j]@,
        decreases items.len() - i,
    {
        r.push(items[i].clone());
        i = i + 1;
    }
    assert(view_each(r@) =~= view_each(items@));
    r
}

/// Reads a decimal digit.
pub fn decimal_digit_of(c: char) -> (r: Option<u8>)
    ensures
        r is Some <==> is_decimal_digit(c),
        r matches Some(d) ==> d as nat == digit_value(c) && d < 10,
{
    if '0' <= c && c <= '9' {
        Some((c as u32 - '0' as u32) as u8)
    } else {
        None
    }
}

/// Reads a hexadecimal digit of either case.
pub fn hex_digit_of(c: char) -> (r: Option<u8>)
    ensures
        r is Some <==> is_hex_digit(c),
        r matches Some(d) ==> d as nat == digit_value(c) && d < 16,
{
    if '0' <= c && c <= '9' {
        Some((c as u32 - '0' as u32) as u8)
    } else if 'a' <= c && c <= 'f' {
        Some((c as u32 - 'a' as u32 + 10) as u8)
    } else if 'A' <= c && c <= 'F' {
        Some((c as u32 - 'A' as u32 + 10) as u8)
    } else {
        None
    }
}

/// The views of the items of a sequence, one for one.
pub open spec fn view_each<T: View>(items: Seq<T>) -> Seq<T::V> {
    Seq::new(items.len(), |i: int| items[i]@)
}

/// Whether every character of `s` is a decimal digit.
pub open spec fn all_decimal(s: Seq<char>) -> bool {
    forall|i: int| 0 <= i < s.len() ==> is_decimal_digit(#[trigger] s[i])
}

/// Whether every character of `s` is a hexadecimal digit.
pub open spec fn all_hex(s: Seq<char>) -> bool {
    forall|i: int| 0 <= i < s.len() ==> is_hex_digit(#[trigger] s[i])
}

/// The number that a decimal numeral denotes, most significant digit first.
pub open spec fn decimal_value(s: Seq<char>) -> nat
    decreases s.len(),
{
    if s.len() == 0 {
        0
    } else {
        decimal_value(s.drop_last()) * 10 + digit_value(s.last())
    }
}

/// The number that a hexadecimal numeral denotes, most significant digit first.
pub open spec fn hex_value(s: Seq<char>) -> nat
    decreases s.len(),
{
    if s.len() == 0 {
        0
    } else {
        hex_value(s.drop_last()) * 16 + digit_value(s.last())
    }
}

/// The decimal numeral of `n` without leading zeros.
pub open spec fn decimal_text(n: nat) -> Seq<char>
    decreases n,
{
    if n < 10 {
        seq![digit_char(n)]
    } else {
        decimal_text(n / 10).push(digit_char(n % 10))
    }
}

/// The lower-case hexadecimal numeral of `n` without leading zeros.
pub open spec fn hex_text(n: nat) -> Seq<char>
    decreases n,
{
    if n < 16 {
        seq![digit_char(n)]
    } else {
        hex_text(n / 16).push(digit_char(n % 16))
    }
}

/// The fields of `s` between occurrences of `sep`. There is always at least
/// one field; `n` separators give `n + 1` fields, some of them possibly empty.
pub open spec fn split(s: Seq<char>, sep: char) -> Seq<Seq<char>>
    decreases s.len(),
{
    if s.len() == 0 {
        seq![Seq::<char>::empty()]
    } else {
        let init = split(s.drop_last(), sep);
        if s.last() == sep {
            init.push(Seq::<char>::empty())
        } else {
            init.drop_last().push(init.last().push(s.last()))
        }
    }
}

/// The fields of `fields` joined again, with `sep` between neighbours.
pub open spec fn join(fields: Seq<Seq<char>>, sep: char) -> Seq<char>
    decreases fields.len(),
{
    if fields.len() == 0 {
        Seq::<char>::empty()
    } else if fields.len() == 1 {
        fields[0]
    } else {
        join(fields.drop_last(), sep) + seq![sep] + fields.last()
    }
}

/// What an unsigned decimal numeral reads as: it has at least one character,
/// only decimal digits, and a value that fits in 32 bits.
pub open spec fn decimal_u32(s: Seq<char>) -> Option<u32> {
    if s.len() > 0 && all_decimal(s) && decimal_value(s) <= u32::MAX {
        Some(decimal_value(s) as u32)
    } else {
        None
    }
}

/// What a hexadecimal group reads as: one to four hexadecimal digits.
pub open spec fn hex_u16(s: Seq<char>) -> Option<u16> {
    if 1 <= s.len() <= 4 && all_hex(s) {
        Some(hex_value(s) as u16)
    } else {
        None
    }
}

/// A text has at least one field.
pub proof fn lemma_split_nonempty(s: Seq<char>, sep: char)
    ensures
        split(s, sep).len() >= 1,
    decreases s.len(),
{
    if s.len() > 0 {
        lemma_split_nonempty(s.drop_last(), sep);
    }
}

/// The value of a numeral's prefix never exceeds the value of the numeral.
pub proof fn lemma_decimal_prefix_le(s: Seq<char>, n: int)
    requires
        0 <= n <= s.len(),
    ensures
        decimal_value(s.take(n)) <= decimal_value(s),
    decreases s.len(),
{
    if n == s.len() {
        assert(s.take(n) =~= s);
    } else {
        lemma_decimal_prefix_le(s.drop_last(), n);
        assert(s.drop_last().take(n) =~= s.take(n));
    }
}

/// A decimal numeral of at most three digits is below 1000.
pub proof fn lemma_decimal_short(s: Seq<char>)
    requires
        s.len() <= 3,
        all_decimal(s),
    ensures
        decimal_value(s) < 1000,
        s.len() <= 2 ==> decimal_value(s) < 100,
        s.len() <= 1 ==> decimal_value(s) < 10,
        s.len() == 0 ==> decimal_value(s) == 0,
    decreases s.len(),
{
    if s.len() > 0 {
        lemma_decimal_short(s.drop_last());
        assert(is_decimal_digit(s[s.len() - 1]));
    }
}

/// A hexadecimal numeral of at most four digits is below 65536.
pub proof fn lemma_hex_value_bound(s: Seq<char>)
    requires
        all_hex(s),
        s.len() <= 4,
    ensures
        s.len() == 0 ==> hex_value(s) == 0,
        s.len() == 1 ==> hex_value(s) < 16,
        s.len() == 2 ==> hex_value(s) < 256,
        s.len() == 3 ==> hex_value(s) < 4096,
        s.len() == 4 ==> hex_value(s) < 65536,
    decreases s.len(),
{
    if s.len() > 0 {
        lemma_hex_value_bound(s.drop_last());
        assert(is_hex_digit(s[s.len() - 1]));
    }
}

/// The decimal numeral of a number consists of digits, has no leading zero
/// unless it is `0` itself, and denotes that number.
pub proof fn lemma_decimal_text(n: nat)
    ensures
        decimal_text(n).len() >= 1,
        all_decimal(decimal_text(n)),
        decimal_value(decimal_text(n)) == n,
        n >= 10 ==> decimal_text(n)[0] != '0',
        n < 10 ==> decimal_text(n).len() == 1,
        n < 100 ==> decimal_text(n).len() <= 2,
        n < 1000 ==> decimal_text(n).len() <= 3,
    decreases n,
{
    let t = decimal_text(n);
    if n < 10 {
        assert(t.drop_last() =~= Seq::<char>::empty());
        assert(decimal_value(t.drop_last()) == 0);
    } else {
        lemma_decimal_text(n / 10);
        let init = decimal_text(n / 10);
        assert(t.drop_last() =~= init);
        assert(t.last() == digit_char(n % 10));
        assert(t[0] == init[0]);
        if n / 10 < 10 {
            assert(init[0] == digit_char(n / 10));
        }
        assert forall|i: int| 0 <= i < t.len() implies is_decimal_digit(#[trigger] t[i]) by {
            if i < init.len() {
                assert(t[i] == init[i]);
            }
        }
    }
}

/// The hexadecimal numeral of a 16-bit number has one to four lower-case
/// hexadecimal digits and denotes that number.
pub proof fn lemma_hex_text(n: nat)
    requires
        n < 65536,
    ensures
        1 <= hex_text(n).len() <= 4,
        n < 16 ==> hex_text(n).len() == 1,
        n < 256 ==> hex_text(n).len() <= 2,
        n < 4096 ==> hex_text(n).len() <= 3,
        all_hex(hex_text(n)),
        hex_value(hex_text(n)) == n,
        hex_u16(hex_text(n)) == Some(n as u16),
    decreases n,
{
    let t = hex_text(n);
    if n < 16 {
        assert(t.drop_last() =~= Seq::<char>::empty());
        assert(hex_value(t.drop_last()) == 0);
        assert(is_hex_digit(digit_char(n)));
        assert(digit_value(digit_char(n)) == n);
    } else {
        lemma_hex_text(n / 16);
        let init = hex_text(n / 16);
        assert(t.drop_last() =~= init);
        assert(t.last() == digit_char(n % 16));
        assert(is_hex_digit(digit_char(n % 16)));
        assert(digit_value(digit_char(n % 16)) == n % 16);
        assert forall|i: int| 0 <= i < t.len() implies is_hex_digit(#[trigger] t[i]) by {
            if i < init.len() {
                assert(t[i] == init[i]);
            }
        }
    }
}

/// A numeral of digits without a leading zero is the decimal numeral of its
/// own value.
pub proof fn lemma_decimal_text_of_value(t: Seq<char>)
    requires
        t.len() >= 1,
        all_decimal(t),
        t.len() == 1 || t[0] != '0',
    ensures
        decimal_text(decimal_value(t)) == t,
    decreases t.len(),
{
    let init = t.drop_last();
    assert(is_decimal_digit(t[t.len() - 1]));
    if t.len() == 1 {
        assert(init =~= Seq::<char>::empty());
        assert(decimal_value(init) == 0);
        assert(decimal_text(decimal_value(t)) =~= t);
    } else {
        assert(init[0] == t[0]);
        assert forall|i: int| 0 <= i < init.len() implies is_decimal_digit(#[trigger] init[i]) by {
            assert(init[i] == t[i]);
        }
        lemma_decimal_text_of_value(init);
        lemma_decimal_prefix_le(init, 1);
        let first = init.take(1);
        assert(first.drop_last() =~= Seq::<char>::empty());
        assert(decimal_value(first.drop_last()) == 0);
        assert(first.last() == t[0]);
        assert(is_decimal_digit(t[0]));
        assert(decimal_value(first) >= 1);
        assert(decimal_value(t) >= 10);
        assert(decimal_value(t) / 10 == decimal_value(init));
        assert(digit_char(decimal_value(t) % 10) == t.last());
        assert(decimal_text(decimal_value(t)) =~= t);
    }
}

/// A text without the separator is its own single field.
pub proof fn lemma_split_single(s: Seq<char>, sep: char)
    requires
        forall|i: int| 0 <= i < s.len() ==> s[i] != sep,
    ensures
        split(s, sep) == seq![s],
    decreases s.len(),
{
    if s.len() == 0 {
        assert(s =~= Seq::<char>::empty());
    } else {
        lemma_split_single(s.drop_last(), sep);
        let init = seq![s.drop_last()];
        assert(init.drop_last() =~= Seq::<Seq<char>>::empty());
        assert(init.last().push(s.last()) =~= s);
        assert(init.drop_last().push(s) =~= seq![s]);
    }
}

/// A separator followed by a text without separators adds that text as one
/// more field.
pub proof fn lemma_split_append(a: Seq<char>, b: Seq<char>, sep: char)
    requires
        forall|i: int| 0 <= i < b.len() ==> b[i] != sep,
    ensures
        split(a + seq![sep] + b, sep) == split(a, sep).push(b),
    decreases b.len(),
{
    let s = a + seq![sep] + b;
    if b.len() == 0 {
        assert(s.drop_last() =~= a);
        assert(b =~= Seq::<char>::empty());
    } else {
        lemma_split_append(a, b.drop_last(), sep);
        assert(s.drop_last() =~= a + seq![sep] + b.drop_last());
        assert(s.last() == b.last());
        let init = split(a, sep).push(b.drop_last());
        assert(init.drop_last() =~= split(a, sep));
        assert(init.last().push(b.last()) =~= b);
    }
}

/// Joining the fields of a text with the separator gives the text back.
pub proof fn lemma_join_split(s: Seq<char>, sep: char)
    ensures
        join(split(s, sep), sep) == s,
    decreases s.len(),
{
    if s.len() == 0 {
        assert(join(split(s, sep), sep) =~= s);
    } else {
        let init = split(s.drop_last(), sep);
        lemma_join_split(s.drop_last(), sep);
        lemma_split_nonempty(s.drop_last(), sep);
        if s.last() == sep {
            let f = init.push(Seq::<char>::empty());
            assert(f.drop_last() =~= init);
            assert(join(f, sep) =~= s);
        } else {
            let f = init.drop_last().push(init.last().push(s.last()));
            if init.len() == 1 {
                assert(join(init, sep) == init[0]);
                assert(f[0] == init[0].push(s.last()));
                assert(s.drop_last().push(s.last()) =~= s);
            } else {
                let head = join(init.drop_last(), sep);
                assert(f.drop_last() =~= init.drop_last());
                assert(f.last() == init.last().push(s.last()));
                assert(join(init, sep) == head + seq![sep] + init.last());
                assert(join(f, sep) == head + seq![sep] + f.last());
                assert(head + seq![sep] + init.last().push(s.last()) =~= (head + seq![sep]
                    + init.last()).push(s.last()));
                assert(s.drop_last().push(s.last()) =~= s);
            }
        }
    }
}

/// Reads an unsigned decimal numeral of any length whose value fits in 32 bits.
pub fn parse_decimal(s: &[char]) -> (r: Option<u32>)
    ensures
        r == decimal_u32(s@),
{
    if s.len() == 0 {
        return None;
    }
    let mut acc: u32 = 0;
    let mut i: usize = 0;
    while i < s.len()
        invariant
            i <= s.len(),
            all_decimal(s@.take(i as int)),
            acc as nat == decimal_value(s@.take(i as int)),
        decreases s.len() - i,
    {
        let ghost before = s@.take(i as int);
        let ghost after = s@.take(i + 1);
        proof {
            assert(after.drop_last() =~= before);
            assert(after.last() == s@[i as int]);
        }
        match decimal_digit_of(s[i]) {
            None => {
                assert(!is_decimal_digit(s@[i as int]));
                return None;
            },
            Some(d) => {
                if acc > (u32::MAX - d as u32) / 10 {
                    proof {
                        lemma_decimal_prefix_le(s@, i + 1);
                    }
                    return None;
                }
                acc = acc * 10 + d as u32;
                proof {
                    assert forall|j: int| 0 <= j < after.len() implies is_decimal_digit(
                        #[trigger] after[j],
                    ) by {
                        if j < i {
                            assert(after[j] == before[j]);
                        }
                    }
                }
            },
        }
        i = i + 1;
    }
    proof {
        assert(s@.take(i as int) =~= s@);
    }
    Some(acc)
}

/// Reads a hexadecimal group of one to four digits of either case.
pub fn parse_hex_group(s: &[char]) -> (r: Option<u16>)
    ensures
        r == hex_u16(s@),
{
    if s.len() == 0 || s.len() > 4 {
        return None;
    }
    let mut acc: u16 = 0;
    let mut i: usize = 0;
    while i < s.len()
        invariant
            i <= s.len() <= 4,
            all_hex(s@.take(i as int)),
            acc as nat == hex_value(s@.take(i as int)),
        decreases s.len() - i,
    {
        let ghost before = s@.take(i as int);
        let ghost after = s@.take(i + 1);
        proof {
            assert(after.drop_last() =~= before);
            assert(after.last() == s@[i as int]);
            lemma_hex_value_bound(before);
        }
        match hex_digit_of(s[i]) {
            None => {
                assert(!is_hex_digit(s@[i as int]));
                return None;
            },
            Some(d) => {
                acc = acc * 16 + d as u16;
                proof {
                    assert forall|j: int| 0 <= j < after.len() implies is_hex_digit(
                        #[trigger] after[j],
                    ) by {
                        if j < i {
                            assert(after[j] == before[j]);
                        }
                    }
                }
            },
        }
        i = i + 1;
    }
    proof {
        assert(s@.take(i as int) =~= s@);
        lemma_hex_value_bound(s@);
    }
    Some(acc)
}

/// Cuts `s` into its fields at every occurrence of `sep`.
pub fn split_fields(s: &[char], sep: char) -> (fields: Vec<Vec<char>>)
    ensures
        view_each(fields@) == split(s@, sep),
{
    let mut fields: Vec<Vec<char>> = Vec::new();
    let mut current: Vec<char> = Vec::new();
    let mut i: usize = 0;
    while i < s.len()
        invariant
            i <= s.len(),
            view_each(fields@).push(current@) == split(s@.take(i as int), sep),
        decreases s.len() - i,
    {
        let ghost done = view_each(fields@);
        let ghost part = current@;
        let ghost after = s@.take(i + 1);
        proof {
            assert(after.drop_last() =~= s@.take(i as int));
            assert(after.last() == s@[i as int]);
            assert(done.push(part).drop_last() =~= done);
        }
        if s[i] == sep {
            fields.push(current);
            current = Vec::new();
            proof {
                assert(view_each(fields@) =~= done.push(part));
            }
        } else {
            current.push(s[i]);
        }
        i = i + 1;
    }
    let ghost done = view_each(fields@);
    fields.push(current);
    proof {
        assert(s@.take(i as int) =~= s@);
        assert(view_each(fields@) =~= done.push(current@));
    }
    fields
}

/// The one-character text of the digit `d`.
pub fn digit_str(d: u8) -> (r: &'static str)
    requires
        d < 16,
    ensures
        r@ == seq![digit_char(d as nat)],
{
    proof {
        reveal_strlit("0");
        reveal_strlit("1");
        reveal_strlit("2");
        reveal_strlit("3");
        reveal_strlit("4");
        reveal_strlit("5");
        reveal_strlit("6");
        reveal_strlit("7");
        reveal_strlit("8");
        reveal_strlit("9");
        reveal_strlit("a");
        reveal_strlit("b");
        reveal_strlit("c");
        reveal_strlit("d");
        reveal_strlit("e");
        reveal_strlit("f");
    }
    let r = match d {
        0 => "0",
        1 => "1",
        2 => "2",
        3 => "3",
        4 => "4",
        5 => "5",
        6 => "6",
        7 => "7",
        8 => "8",
        9 => "9",
        10 => "a",
        11 => "b",
        12 => "c",
        13 => "d",
        14 => "e",
        _ => "f",
    };
    assert(r@ =~= seq![digit_char(d as nat)]);
    r
}

/// Appends the decimal numeral of `n` to `out`.
pub fn push_decimal(out: &mut String, n: u32)
    ensures
        final(out)@ == old(out)@ + decimal_text(n as nat),
    decreases n,
{
    if n >= 10 {
        push_decimal(out, n / 10);
    }
    out.append(digit_str((n % 10) as u8));
    proof {
        if n >= 10 {
            assert(final(out)@ =~= old(out)@ + decimal_text(n as nat));
        } else {
            assert(final(out)@ =~= old(out)@ + decimal_text(n as nat));
        }
    }
}

/// Appends the lower-case hexadecimal numeral of `n` to `out`.
pub fn push_hex(out: &mut String, n: u16)
    ensures
        final(out)@ == old(out)@ + hex_text(n as nat),
    decreases n,
{
    if n >= 16 {
        push_hex(out, n / 16);
    }
    out.append(digit_str((n % 16) as u8));
    proof {
        assert(final(out)@ =~= old(out)@ + hex_text(n as nat));
    }
}

} // verus!
