//! Small verified text utilities: substring search, prefix stripping,
//! whitespace trimming, address shortening and fixed-point decimal rendering.

use vstd::prelude::*;

verus! {

/// `needle` occurs as a contiguous run of characters in `hay`.
pub open spec fn contains_seq(hay: Seq<char>, needle: Seq<char>) -> bool {
    exists|i: int|
        0 <= i && i + needle.len() <= hay.len() && #[trigger] hay.subrange(
            i,
            i + needle.len() as int,
        ) == needle
}

/// `prefix` is a prefix of `hay`.
pub open spec fn starts_with_seq(hay: Seq<char>, prefix: Seq<char>) -> bool {
    prefix.len() <= hay.len() && hay.subrange(0, prefix.len() as int) == prefix
}

/// Does `needle` match `hay` at position `at`?
fn match_at(hay: &str, needle: &str, at: usize) -> (r: bool)
    requires
        at + needle@.len() <= hay@.len(),
    ensures
        r == (hay@.subrange(at as int, at as int + needle@.len() as int) == needle@),
{
    let hlen = hay.unicode_len();
    let nlen = needle.unicode_len();
    let mut j: usize = 0;
    while j < nlen
        invariant
            hlen == hay@.len(),
            nlen == needle@.len(),
            at + nlen <= hlen,
            j <= nlen,
            forall|k: int| 0 <= k < j ==> hay@[at + k] == needle@[k],
        decreases nlen - j,
    {
        if hay.get_char(at + j) != needle.get_char(j) {
            proof {
                assert(hay@.subrange(at as int, at as int + needle@.len() as int)[j as int]
                    == hay@[at + j]);
            }
            return false;
        }
        j += 1;
    }
    proof {
        assert(hay@.subrange(at as int, at as int + needle@.len() as int) =~= needle@);
    }
    true
}

/// Substring search; the result says exactly whether `needle` occurs in `hay`.
pub fn contains_str(hay: &str, needle: &str) -> (r: bool)
    ensures
        r == contains_seq(hay@, needle@),
{
    let hlen = hay.unicode_len();
    let nlen = needle.unicode_len();
    if nlen > hlen {
        return false;
    }
    if nlen == 0 {
        proof {
            assert(hay@.subrange(0, 0 + needle@.len() as int) =~= needle@);
            assert(contains_seq(hay@, needle@));
        }
        return true;
    }
    let mut i: usize = 0;
    while i <= hlen - nlen
        invariant
            hlen == hay@.len(),
            nlen == needle@.len(),
            0 < nlen <= hlen,
            i <= hlen - nlen + 1,
            forall|k: int|
                0 <= k < i ==> #[trigger] hay@.subrange(k, k + needle@.len() as int) != needle@,
        decreases hlen - nlen - i + 1,
    {
        if match_at(hay, needle, i) {
            proof {
                assert(0 <= i as int && i as int + needle@.len() <= hay@.len() && hay@.subrange(
                    i as int,
                    i as int + needle@.len() as int,
                ) == needle@);
            }
            return true;
        }
        i += 1;
    }
    proof {
        assert(forall|k: int|
            0 <= k && k + needle@.len() <= hay@.len() ==> #[trigger] hay@.subrange(
                k,
                k + needle@.len() as int,
            ) != needle@);
    }
    false
}

/// Character-for-character string equality.
pub fn str_eq(a: &str, b: &str) -> (r: bool)
    ensures
        r == (a@ == b@),
{
    let alen = a.unicode_len();
    let blen = b.unicode_len();
    if alen != blen {
        return false;
    }
    let mut i: usize = 0;
    while i < alen
        invariant
            alen == a@.len(),
            alen == b@.len(),
            i <= alen,
            forall|k: int| 0 <= k < i ==> a@[k] == b@[k],
        decreases alen - i,
    {
        if a.get_char(i) != b.get_char(i) {
            return false;
        }
        i += 1;
    }
    proof {
        assert(a@ =~= b@);
    }
    true
}

/// Membership of `needle` in a list of strings.
pub fn string_list_contains(list: &Vec<String>, needle: &str) -> (r: bool)
    ensures
        r == list.deep_view().contains(needle@),
{
    let n = list.len();
    let mut i: usize = 0;
    while i < n
        invariant
            n == list@.len(),
            i <= n,
            forall|k: int| 0 <= k < i ==> (#[trigger] list.deep_view()[k]) != needle@,
        decreases n - i,
    {
        proof {
            assert(list.deep_view()[i as int] == list@[i as int]@);
        }
        if str_eq(list[i].as_str(), needle) {
            proof {
                assert(list.deep_view()[i as int] == needle@);
            }
            return true;
        }
        i += 1;
    }
    false
}

/// Prefix test; the result says exactly whether `hay` starts with `prefix`.
pub fn starts_with_str(hay: &str, prefix: &str) -> (r: bool)
    ensures
        r == starts_with_seq(hay@, prefix@),
{
    let hlen = hay.unicode_len();
    let plen = prefix.unicode_len();
    if plen > hlen {
        return false;
    }
    match_at(hay, prefix, 0)
}

/// Strips `prefix` from the front of `line`, if present.
pub fn strip_prefix_str(line: &str, prefix: &str) -> (r: Option<String>)
    ensures
        r is Some <==> starts_with_seq(line@, prefix@),
        r matches Some(rest) ==> rest@ == line@.skip(prefix@.len() as int),
{
    if starts_with_str(line, prefix) {
        let llen = line.unicode_len();
        let plen = prefix.unicode_len();
        let rest = line.substring_char(plen, llen);
        proof {
            assert(line@.subrange(prefix@.len() as int, line@.len() as int) =~= line@.skip(
                prefix@.len() as int,
            ));
        }
        Some(rest.to_owned())
    } else {
        None
    }
}

/// The whitespace characters recognised by [`trim_spaces`].
pub open spec fn is_space_char(c: char) -> bool {
    c == ' ' || c == '\t' || c == '\r' || c == '\n'
}

/// `s` with leading whitespace removed.
pub open spec fn trim_front(s: Seq<char>) -> Seq<char>
    decreases s.len(),
{
    if s.len() > 0 && is_space_char(s[0]) {
        trim_front(s.drop_first())
    } else {
        s
    }
}

/// `s` with trailing whitespace removed.
pub open spec fn trim_back(s: Seq<char>) -> Seq<char>
    decreases s.len(),
{
    if s.len() > 0 && is_space_char(s[s.len() - 1]) {
        trim_back(s.drop_last())
    } else {
        s
    }
}

/// `s` with leading and trailing whitespace removed.
pub open spec fn trim_seq(s: Seq<char>) -> Seq<char> {
    trim_back(trim_front(s))
}

proof fn lemma_trim_front_skip(s: Seq<char>, a: int)
    requires
        0 <= a <= s.len(),
        forall|k: int| 0 <= k < a ==> is_space_char(s[k]),
        a < s.len() ==> !is_space_char(s[a]),
    ensures
        trim_front(s) == s.skip(a),
    decreases a,
{
    if a == 0 {
        assert(s.skip(0) =~= s);
    } else {
        lemma_trim_front_skip(s.drop_first(), a - 1);
        assert(s.drop_first().skip(a - 1) =~= s.skip(a));
    }
}

proof fn lemma_trim_back_take(s: Seq<char>, b: int)
    requires
        0 <= b <= s.len(),
        forall|k: int| b <= k < s.len() ==> is_space_char(s[k]),
        b > 0 ==> !is_space_char(s[b - 1]),
    ensures
        trim_back(s) == s.take(b),
    decreases s.len() - b,
{
    if b == s.len() {
        assert(s.take(b) =~= s);
    } else {
        lemma_trim_back_take(s.drop_last(), b);
        assert(s.drop_last().take(b) =~= s.take(b));
    }
}

/// Whitespace character test, matching [`is_space_char`].
pub fn is_space(c: char) -> (r: bool)
    ensures
        r == is_space_char(c),
{
    c == ' ' || c == '\t' || c == '\r' || c == '\n'
}

/// Removes leading and trailing whitespace.
pub fn trim_spaces(s: &str) -> (r: String)
    ensures
        r@ == trim_seq(s@),
{
    let len = s.unicode_len();
    let mut a: usize = 0;
    while a < len && is_space(s.get_char(a))
        invariant
            len == s@.len(),
            a <= len,
            forall|k: int| 0 <= k < a ==> is_space_char(s@[k]),
        decreases len - a,
    {
        a += 1;
    }
    let mut b: usize = len;
    while b > a && is_space(s.get_char(b - 1))
        invariant
            len == s@.len(),
            a <= b <= len,
            forall|k: int| b <= k < len ==> is_space_char(s@[k]),
        decreases b,
    {
        b -= 1;
    }
    let out = s.substring_char(a, b);
    proof {
        lemma_trim_front_skip(s@, a as int);
        let t = s@.skip(a as int);
        assert(forall|k: int|
            b - a <= k < t.len() ==> is_space_char(#[trigger] t[k]));
        if b > a {
            assert(t[b - a - 1] == s@[b - 1]);
        }
        lemma_trim_back_take(t, b - a);
        assert(s@.subrange(a as int, b as int) =~= t.take(b - a));
    }
    out.to_owned()
}

/// The displayed form of an address: unchanged when short, else the first and
/// last `k` characters joined by an ellipsis.
pub open spec fn shorten_seq(s: Seq<char>, k: nat) -> Seq<char> {
    if s.len() <= 2 * k {
        s
    } else {
        s.take(k as int) + "..."@ + s.skip(s.len() - k)
    }
}

/// Shortens an address for display.
pub fn shorten_address(address: &str, chars: usize) -> (r: String)
    ensures
        r@ == shorten_seq(address@, chars as nat),
{
    let len = address.unicode_len();
    if len <= chars || len - chars <= chars {
        address.to_owned()
    } else {
        let mut out = address.substring_char(0, chars).to_owned();
        out.append("...");
        out.append(address.substring_char(len - chars, len));
        proof {
            assert(address@.subrange(0, chars as int) =~= address@.take(chars as int));
            assert(address@.subrange(len - chars, len as int) =~= address@.skip(
                len - chars as int,
            ));
        }
        out
    }
}

/// The decimal digit character for `d < 10`.
pub open spec fn digit_char(d: nat) -> char {
    if d == 0 {
        '0'
    } else if d == 1 {
        '1'
    } else if d == 2 {
        '2'
    } else if d == 3 {
        '3'
    } else if d == 4 {
        '4'
    } else if d == 5 {
        '5'
    } else if d == 6 {
        '6'
    } else if d == 7 {
        '7'
    } else if d == 8 {
        '8'
    } else {
        '9'
    }
}

/// The decimal rendering of `n`, most significant digit first.
pub open spec fn dec_digits(n: nat) -> Seq<char>
    decreases n,
{
    if n < 10 {
        seq![digit_char(n)]
    } else {
        dec_digits(n / 10).push(digit_char(n % 10))
    }
}

fn digit_str(d: u64) -> (r: &'static str)
    requires
        d < 10,
    ensures
        r@ == seq![digit_char(d as nat)],
{
    if d == 0 {
        proof {
            reveal_strlit("0");
        }
        assert("0"@ =~= seq![digit_char(0)]);
        "0"
    } else if d == 1 {
        proof {
            reveal_strlit("1");
        }
        assert("1"@ =~= seq![digit_char(1)]);
        "1"
    } else if d == 2 {
        proof {
            reveal_strlit("2");
        }
        assert("2"@ =~= seq![digit_char(2)]);
        "2"
    } else if d == 3 {
        proof {
            reveal_strlit("3");
        }
        assert("3"@ =~= seq![digit_char(3)]);
        "3"
    } else if d == 4 {
        proof {
            reveal_strlit("4");
        }
        assert("4"@ =~= seq![digit_char(4)]);
        "4"
    } else if d == 5 {
        proof {
            reveal_strlit("5");
        }
        assert("5"@ =~= seq![digit_char(5)]);
        "5"
    } else if d == 6 {
        proof {
            reveal_strlit("6");
        }
        assert("6"@ =~= seq![digit_char(6)]);
        "6"
    } else if d == 7 {
        proof {
            reveal_strlit("7");
        }
        assert("7"@ =~= seq![digit_char(7)]);
        "7"
    } else if d == 8 {
        proof {
            reveal_strlit("8");
        }
        assert("8"@ =~= seq![digit_char(8)]);
        "8"
    } else {
        proof {
            reveal_strlit("9");
        }
        assert("9"@ =~= seq![digit_char(9)]);
        "9"
    }
}

/// Renders `n` in decimal.
pub fn u64_to_dec(n: u64) -> (r: String)
    ensures
        r@ == dec_digits(n as nat),
    decreases n,
{
    if n < 10 {
        String::from_str(digit_str(n))
    } else {
        let mut s = u64_to_dec(n / 10);
        s.append(digit_str(n % 10));
        proof {
            assert(dec_digits((n / 10) as nat).push(digit_char((n % 10) as nat)) =~= dec_digits(
                (n / 10) as nat,
            ) + seq![digit_char((n % 10) as nat)]);
        }
        s
    }
}

/// `x` (below 100) rendered as exactly two digits.
pub open spec fn two_digits(x: nat) -> Seq<char> {
    if x < 10 {
        seq![digit_char(0)] + dec_digits(x)
    } else {
        dec_digits(x)
    }
}

fn pad2(x: u64) -> (r: String)
    requires
        x < 100,
    ensures
        r@ == two_digits(x as nat),
{
    if x < 10 {
        let mut s = String::from_str(digit_str(0));
        let rest = u64_to_dec(x);
        s.append(rest.as_str());
        s
    } else {
        u64_to_dec(x)
    }
}

/// A scaled quantity rendered with two decimal places: `scaled` counts
/// hundredths of the displayed unit.
pub open spec fn fixed2_seq(scaled: nat) -> Seq<char> {
    dec_digits(scaled / 100) + "."@ + two_digits(scaled % 100)
}

/// Renders a count of hundredths as a two-decimal number, e.g. `150` as "1.50".
pub fn format_fixed2(scaled: u64) -> (r: String)
    ensures
        r@ == fixed2_seq(scaled as nat),
{
    let mut s = u64_to_dec(scaled / 100);
    s.append(".");
    let frac = pad2(scaled % 100);
    s.append(frac.as_str());
    s
}

/// A scaled quantity rendered with one decimal place: `scaled` counts tenths.
pub open spec fn fixed1_seq(scaled: nat) -> Seq<char> {
    dec_digits(scaled / 10) + "."@ + dec_digits(scaled % 10)
}

/// Renders a count of tenths as a one-decimal number, e.g. `15` as "1.5".
pub fn format_fixed1(scaled: u64) -> (r: String)
    ensures
        r@ == fixed1_seq(scaled as nat),
{
    let mut s = u64_to_dec(scaled / 10);
    s.append(".");
    let frac = u64_to_dec(scaled % 10);
    s.append(frac.as_str());
    s
}

/// `x` (below 10000) rendered as exactly four digits.
pub open spec fn four_digits(x: nat) -> Seq<char> {
    if x < 10 {
        "000"@ + dec_digits(x)
    } else if x < 100 {
        "00"@ + dec_digits(x)
    } else if x < 1000 {
        "0"@ + dec_digits(x)
    } else {
        dec_digits(x)
    }
}

/// A scaled quantity rendered with four decimal places: `scaled` counts
/// ten-thousandths of the displayed unit.
pub open spec fn fixed4_seq(scaled: nat) -> Seq<char> {
    dec_digits(scaled / 10000) + "."@ + four_digits(scaled % 10000)
}

/// Renders a count of ten-thousandths as a four-decimal number.
pub fn format_fixed4(scaled: u64) -> (r: String)
    ensures
        r@ == fixed4_seq(scaled as nat),
{
    let mut s = u64_to_dec(scaled / 10000);
    s.append(".");
    let frac = scaled % 10000;
    if frac < 10 {
        s.append("000");
    } else if frac < 100 {
        s.append("00");
    } else if frac < 1000 {
        s.append("0");
    }
    let digits = u64_to_dec(frac);
    s.append(digits.as_str());
    s
}

/// Lamports rendered as SOL with four decimal places (truncating).
pub open spec fn sol4_seq(lamports: nat) -> Seq<char> {
    fixed4_seq(lamports / 100_000)
}

/// Renders lamports as SOL with four decimal places.
pub fn format_sol4(lamports: u64) -> (r: String)
    ensures
        r@ == sol4_seq(lamports as nat),
{
    format_fixed4(lamports / 100_000)
}

/// Lamports rendered as SOL with two decimal places (truncating).
pub open spec fn sol2_seq(lamports: nat) -> Seq<char> {
    fixed2_seq(lamports / 10_000_000)
}

/// Renders lamports as SOL with two decimal places, e.g. 1_500_000_000 as "1.50".
pub fn format_sol2(lamports: u64) -> (r: String)
    ensures
        r@ == sol2_seq(lamports as nat),
{
    format_fixed2(lamports / 10_000_000)
}

} // verus!
