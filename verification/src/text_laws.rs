//! What holds of texts: numbers are read as they are written, rows are split where they
//! are joined, and names are cut where they end.
use crate::assets::{before_query, stem_of, url_file};
use crate::custom_material::{
    comma_pieces, digits_value, plain_number, trim_back, trim_front, trimmed, whole_number,
    whole_numbers,
};
use crate::ids::hyphenated;
use crate::paging::paged;
use crate::text::{decimal, digit_char, hex, last_of, white};
use vstd::prelude::*;

verus! {

/// The value of a digit.
pub open spec fn digit_of(c: char) -> int {
    if '0' <= c <= '9' {
        c as int - '0' as int
    } else {
        c as int - 'a' as int + 10
    }
}

/// A digit has the value that it is written for.
pub proof fn law_digits_have_their_values(d: int)
    requires
        0 <= d < 16,
    ensures
        digit_of(digit_char(d)) == d,
        d < 10 ==> '0' <= digit_char(d) <= '9',
        d >= 10 ==> 'a' <= digit_char(d) <= 'f',
{
}

/// A whole number that is written in digits is read back.
pub proof fn law_number_is_read_as_written(n: nat)
    ensures
        digits_value(decimal(n)) == Some(n as int),
        decimal(n).len() > 0,
        '0' <= decimal(n)[0] <= '9',
        n >= 10 ==> decimal(n)[0] != '0',
    decreases n,
{
    if n < 10 {
        assert(decimal(n).drop_last() =~= Seq::<char>::empty());
        assert(digits_value(Seq::<char>::empty()) == Some(0int));
        assert(decimal(n).last() == digit_char(n as int));
    } else {
        law_number_is_read_as_written(n / 10);
        let s = decimal(n);
        assert(s.drop_last() =~= decimal(n / 10));
        assert(s.last() == digit_char((n % 10) as int));
        assert(s[0] == decimal(n / 10)[0]);
        assert(n == (n / 10) * 10 + n % 10);
        if n / 10 < 10 {
            assert(decimal(n / 10)[0] == digit_char((n / 10) as int));
        }
    }
}

/// A number with or without a sign is read as what it is, where it lies between its
/// bounds; a text that is no number, or one outside them, is refused.
pub proof fn law_signed_number_is_read(n: nat, lo: int, hi: int)
    ensures
        lo <= n <= hi ==> whole_number(decimal(n), lo, hi) == Some(n as int),
        n > hi ==> whole_number(decimal(n), lo, hi) is None,
        lo <= -n <= hi ==> whole_number(seq!['-'] + decimal(n), lo, hi) == Some(-n),
        -n < lo ==> whole_number(seq!['-'] + decimal(n), lo, hi) is None,
        lo <= n <= hi ==> whole_number(seq!['+'] + decimal(n), lo, hi) == Some(n as int),
        whole_number(Seq::empty(), lo, hi) is None,
        n <= u32::MAX ==> plain_number(decimal(n)) == Some(n as u32),
        n > u32::MAX ==> plain_number(decimal(n)) is None,
        plain_number(seq!['-'] + decimal(n)) is None,
{
    law_number_is_read_as_written(n);
    let s = decimal(n);
    let minus = seq!['-'] + s;
    let plus = seq!['+'] + s;
    assert(minus.drop_first() =~= s);
    assert(plus.drop_first() =~= s);
    lemma_sign_is_no_digit(s);
}

proof fn lemma_sign_is_no_digit(s: Seq<char>)
    ensures
        digits_value(seq!['-'] + s) is None,
    decreases s.len(),
{
    let t = seq!['-'] + s;
    if s.len() == 0 {
        assert(t.drop_last() =~= Seq::<char>::empty());
        assert(t.last() == '-');
    } else {
        lemma_sign_is_no_digit(s.drop_last());
        assert(t.drop_last() =~= seq!['-'] + s.drop_last());
    }
}

/// Bytes are written with two digits each, the higher first.
pub proof fn law_bytes_are_written_with_two_digits(bytes: Seq<u8>, i: int)
    requires
        0 <= i < bytes.len(),
    ensures
        hex(bytes).len() == 2 * bytes.len(),
        digit_of(hex(bytes)[2 * i]) * 16 + digit_of(hex(bytes)[2 * i + 1]) == bytes[i],
    decreases bytes.len(),
{
    let less = bytes.drop_last();
    lemma_hex_len(less);
    let b = bytes.last();
    law_digits_have_their_values((b / 16) as int);
    law_digits_have_their_values((b % 16) as int);
    assert(b == (b / 16) * 16 + b % 16);
    if i < less.len() {
        law_bytes_are_written_with_two_digits(less, i);
        assert(less[i] == bytes[i]);
    }
}

proof fn lemma_hex_len(bytes: Seq<u8>)
    ensures
        hex(bytes).len() == 2 * bytes.len(),
    decreases bytes.len(),
{
    if bytes.len() > 0 {
        lemma_hex_len(bytes.drop_last());
    }
}

/// An id is written in groups of eight, four, four, four and twelve digits, the highest
/// first.
pub proof fn law_id_is_written_in_groups(id: u128)
    ensures
        hyphenated(id).len() == 36,
        hyphenated(id)[8] == '-' && hyphenated(id)[13] == '-' && hyphenated(id)[18] == '-'
            && hyphenated(id)[23] == '-',
        digit_of(hyphenated(id)[35]) == id % 16,
        digit_of(hyphenated(id)[34]) == (id / 16) % 16,
        digit_of(hyphenated(id)[24]) == (id / 0x1000_0000_0000) % 16,
        digit_of(hyphenated(id)[22]) == (id / 0x1_0000_0000_0000) % 16,
        digit_of(hyphenated(id)[0]) == (id / 0x1000_0000_0000_0000_0000_0000_0000_0000) % 16,
{
    reveal_with_fuel(crate::ids::pow16, 33);
    let s = hyphenated(id);
    let n = id as nat;
    assert(crate::ids::pow16(0) == 1);
    assert(n / 1nat == n);
    assert(s[35] == digit_char(((n / crate::ids::pow16(0)) % 16) as int));
    assert(s[34] == digit_char(((n / crate::ids::pow16(1)) % 16) as int));
    assert(s[24] == digit_char(((n / crate::ids::pow16(11)) % 16) as int));
    assert(s[22] == digit_char(((n / crate::ids::pow16(12)) % 16) as int));
    assert(s[0] == digit_char(((n / crate::ids::pow16(31)) % 16) as int));
    assert(crate::ids::pow16(1) == 16);
    assert(crate::ids::pow16(11) == 0x1000_0000_0000);
    assert(crate::ids::pow16(12) == 0x1_0000_0000_0000);
    assert(crate::ids::pow16(31) == 0x1000_0000_0000_0000_0000_0000_0000_0000);
    law_digits_have_their_values((n % 16) as int);
    law_digits_have_their_values(((n / 16) % 16) as int);
    law_digits_have_their_values(((n / 0x1000_0000_0000nat) % 16) as int);
    law_digits_have_their_values(((n / 0x1_0000_0000_0000nat) % 16) as int);
    law_digits_have_their_values(
        ((n / 0x1000_0000_0000_0000_0000_0000_0000_0000nat) % 16) as int,
    );
}

/// Pieces joined by commas.
pub open spec fn joined(pieces: Seq<Seq<char>>) -> Seq<char>
    decreases pieces.len(),
{
    if pieces.len() == 0 {
        seq![]
    } else if pieces.len() == 1 {
        pieces[0]
    } else {
        joined(pieces.drop_last()) + seq![','] + pieces.last()
    }
}

/// A text is split at its commas: the pieces hold none, and joined by commas they are
/// the text.
pub proof fn law_text_is_split_at_commas(s: Seq<char>)
    ensures
        comma_pieces(s).len() > 0,
        joined(comma_pieces(s)) == s,
        forall|i: int, j: int|
            0 <= i < comma_pieces(s).len() && 0 <= j < comma_pieces(s)[i].len()
                ==> #[trigger] comma_pieces(s)[i][j] != ',',
    decreases s.len(),
{
    let p = comma_pieces(s);
    if s.len() > 0 {
        let t = s.drop_last();
        law_text_is_split_at_commas(t);
        let a = comma_pieces(t);
        assert(t.push(s.last()) =~= s);
        if s.last() == ',' {
            assert(p.drop_last() =~= a);
            assert(p.last() =~= Seq::<char>::empty());
            assert(joined(p) =~= t + seq![','] + Seq::<char>::empty());
            assert forall|i: int, j: int| 0 <= i < p.len() && 0 <= j < p[i].len() implies
                #[trigger] p[i][j] != ',' by {
                if i < a.len() {
                    assert(p[i] == a[i]);
                    assert(a[i][j] != ',');
                }
            }
        } else {
            let n = a.len() - 1;
            assert(p.drop_last() =~= a.drop_last());
            assert(p.last() == a.last().push(s.last()));
            if n == 0 {
                assert(joined(p) =~= a[0].push(s.last()));
            } else {
                assert(joined(p) =~= (joined(a.drop_last()) + seq![','] + a.last()).push(s.last()));
            }
            assert(joined(p) =~= s);
            assert forall|i: int, j: int| 0 <= i < p.len() && 0 <= j < p[i].len() implies
                #[trigger] p[i][j] != ',' by {
                if i < n {
                    assert(p[i] == a[i]);
                    assert(a[i][j] != ',');
                } else if j < a[n].len() {
                    assert(p[i][j] == a[n][j]);
                }
            }
        }
    } else {
        assert(joined(p) =~= s);
    }
}

proof fn lemma_front(s: Seq<char>) -> (n: int)
    ensures
        0 <= n <= s.len(),
        trim_front(s) == s.skip(n),
        forall|i: int| 0 <= i < n ==> white(#[trigger] s[i]),
        n < s.len() ==> !white(s[n]),
    decreases s.len(),
{
    if s.len() > 0 && white(s[0]) {
        let rest = s.drop_first();
        let m = lemma_front(rest);
        assert(rest.skip(m) =~= s.skip(m + 1));
        assert forall|i: int| 0 <= i < m + 1 implies white(#[trigger] s[i]) by {
            if i > 0 {
                assert(rest[i - 1] == s[i]);
            }
        }
        if m + 1 < s.len() {
            assert(rest[m] == s[m + 1]);
        }
        m + 1
    } else {
        assert(s.skip(0) =~= s);
        0
    }
}

proof fn lemma_back(s: Seq<char>) -> (n: int)
    ensures
        0 <= n <= s.len(),
        trim_back(s) == s.take(n),
        forall|i: int| n <= i < s.len() ==> white(#[trigger] s[i]),
        n > 0 ==> !white(s[n - 1]),
    decreases s.len(),
{
    if s.len() > 0 && white(s.last()) {
        let rest = s.drop_last();
        let m = lemma_back(rest);
        assert(rest.take(m) =~= s.take(m));
        assert forall|i: int| m <= i < s.len() implies white(#[trigger] s[i]) by {
            if i < rest.len() {
                assert(rest[i] == s[i]);
            }
        }
        m
    } else {
        assert(s.take(s.len() as int) =~= s);
        s.len() as int
    }
}

/// A text loses the white space around it, and nothing else.
pub proof fn law_trim_takes_white_space_only(s: Seq<char>)
    ensures
        exists|i: int, j: int|
            0 <= i <= j <= s.len() && trimmed(s) == #[trigger] s.subrange(i, j) && (forall|k: int|
                0 <= k < s.len() && (k < i || j <= k) ==> white(#[trigger] s[k])),
        trimmed(s).len() > 0 ==> !white(trimmed(s)[0]) && !white(trimmed(s).last()),
{
    let i = lemma_front(s);
    let rest = s.skip(i);
    let m = lemma_back(rest);
    let j = i + m;
    assert(trimmed(s) =~= s.subrange(i, j));
    assert forall|k: int| 0 <= k < s.len() && (k < i || j <= k) implies white(#[trigger] s[k]) by {
        if j <= k {
            assert(rest[k - i] == s[k]);
        }
    }
    if trimmed(s).len() > 0 {
        assert(trimmed(s)[0] == s[i]);
        assert(trimmed(s).last() == rest[m - 1]);
    }
}

/// Of the pieces of a text, those that are whole numbers are read, in order.
pub proof fn law_numbers_among_pieces_are_read(pieces: Seq<Seq<char>>, last: Seq<char>)
    ensures
        ({
            let r = whole_numbers(pieces.push(last));
            let a = whole_numbers(pieces);
            match whole_number(trimmed(last), -0x8000_0000, 0x7FFF_FFFF) {
                Some(n) => r.len() == a.len() + 1 && r.take(a.len() as int) == a && r[a.len() as int]
                    == n,
                None => r == a,
            }
        }),
        whole_numbers(Seq::empty()).len() == 0,
{
    assert(pieces.push(last).drop_last() =~= pieces);
    let r = whole_numbers(pieces.push(last));
    let a = whole_numbers(pieces);
    if whole_number(trimmed(last), -0x8000_0000, 0x7FFF_FFFF) is Some {
        assert(r.take(a.len() as int) =~= a);
    }
}

proof fn lemma_last_of(s: Seq<char>, c: char)
    ensures
        -1 <= last_of(s, c) < s.len(),
        last_of(s, c) >= 0 ==> s[last_of(s, c)] == c,
        forall|i: int| last_of(s, c) < i < s.len() ==> #[trigger] s[i] != c,
    decreases s.len(),
{
    if s.len() > 0 && s.last() != c {
        lemma_last_of(s.drop_last(), c);
        let t = s.drop_last();
        assert forall|i: int| last_of(s, c) < i < s.len() implies #[trigger] s[i] != c by {
            if i < t.len() {
                assert(t[i] == s[i]);
            }
        }
    }
}

/// The name of a file is what follows the last slash of its path; it loses its ending at
/// the last dot.
pub proof fn law_file_name_is_the_last_part(path: Seq<char>, name: Seq<char>, ending: Seq<char>)
    requires
        forall|i: int| 0 <= i < path.len() ==> #[trigger] path[i] != '?' && path[i] != '#',
        forall|i: int|
            0 <= i < name.len() ==> #[trigger] name[i] != '?' && name[i] != '#' && name[i] != '/',
        forall|i: int| 0 <= i < ending.len() ==> #[trigger] ending[i] != '.',
        name.len() > 0,
    ensures
        forall|fallback: Seq<char>|
            #[trigger] url_file(path + seq!['/'] + name, fallback) == name,
        stem_of(name + seq!['.'] + ending) == name,
        last_of(name, '.') < 0 ==> stem_of(name) == name,
{
    let url = path + seq!['/'] + name;
    assert forall|i: int| 0 <= i < url.len() implies #[trigger] url[i] != '?' && url[i] != '#' by {
        if i < path.len() {
            assert(url[i] == path[i]);
        } else if i > path.len() {
            assert(url[i] == name[i - path.len() - 1]);
        }
    }
    lemma_no_query(url);
    lemma_last_of(url, '/');
    let k = last_of(url, '/');
    let n = path.len() as int;
    assert(url[n] == '/');
    if k > n {
        assert(url[k] == name[k - n - 1]);
    }
    assert(k == n);
    assert(url.skip(k + 1) =~= name);
    let whole = name + seq!['.'] + ending;
    lemma_last_of(whole, '.');
    let d = last_of(whole, '.');
    let m = name.len() as int;
    assert(whole[m] == '.');
    if d > m {
        assert(whole[d] == ending[d - m - 1]);
    }
    assert(whole.take(d) =~= name);
}

proof fn lemma_no_query(s: Seq<char>)
    requires
        forall|i: int| 0 <= i < s.len() ==> #[trigger] s[i] != '?' && s[i] != '#',
    ensures
        before_query(s) == s,
    decreases s.len(),
{
    if s.len() > 0 {
        let t = s.drop_first();
        assert forall|i: int| 0 <= i < t.len() implies #[trigger] t[i] != '?' && t[i] != '#' by {
            assert(t[i] == s[i + 1]);
        }
        assert(s[0] != '?' && s[0] != '#');
        lemma_no_query(t);
        assert(seq![s[0]] + t =~= s);
    }
}

/// What follows a question mark or a hash does not belong to the path.
pub proof fn law_query_is_no_path(path: Seq<char>, query: Seq<char>)
    requires
        forall|i: int| 0 <= i < path.len() ==> #[trigger] path[i] != '?' && path[i] != '#',
    ensures
        before_query(path + seq!['?'] + query) == path,
        before_query(path + seq!['#'] + query) == path,
    decreases path.len(),
{
    let a = path + seq!['?'] + query;
    let b = path + seq!['#'] + query;
    if path.len() > 0 {
        let t = path.drop_first();
        assert forall|i: int| 0 <= i < t.len() implies #[trigger] t[i] != '?' && t[i] != '#' by {
            assert(t[i] == path[i + 1]);
        }
        assert(path[0] != '?' && path[0] != '#');
        law_query_is_no_path(t, query);
        assert(a.drop_first() =~= t + seq!['?'] + query);
        assert(b.drop_first() =~= t + seq!['#'] + query);
        assert(a[0] == path[0] && b[0] == path[0]);
        assert(seq![path[0]] + t =~= path);
    } else {
        assert(a[0] == '?' && b[0] == '#');
        assert(before_query(a) =~= path);
        assert(before_query(b) =~= path);
    }
}

/// A page starts at its offset and holds as many items as its limit, as far as the row
/// goes.
pub proof fn law_page_starts_at_its_offset<T>(s: Seq<T>, offset: u32, limit: u32, i: int)
    requires
        0 <= i < limit,
        offset + i < s.len(),
    ensures
        paged(s, Some(offset), Some(limit)).len() <= limit,
        i < paged(s, Some(offset), Some(limit)).len(),
        paged(s, Some(offset), Some(limit))[i] == s[offset + i],
        paged(s, None, None) == s,
{
    assert(paged(s, None, None) =~= s);
}

} // verus!
