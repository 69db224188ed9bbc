use vstd::prelude::*;
use vstd::string::*;

verus! {

/// Compares two string slices character by character.
pub fn str_eq(a: &str, b: &str) -> (same: bool)
    ensures
        same == (a@ == b@),
{
    let n = a.unicode_len();
    let m = b.unicode_len();
    if n != m {
        return false;
    }
    let mut i: usize = 0;
    while i < n
        invariant
            n == a@.len(),
            m == b@.len(),
            n == m,
            i <= n,
            forall|k: int| 0 <= k < i ==> a@[k] == b@[k],
        decreases n - i,
    {
        if a.get_char(i) != b.get_char(i) {
            return false;
        }
        i = i + 1;
    }
    assert(a@ =~= b@);
    true
}

/// The characters of a string slice.
pub fn chars_of(s: &str) -> (cs: Vec<char>)
    ensures
        cs@ == s@,
{
    let n = s.unicode_len();
    let mut cs: Vec<char> = Vec::new();
    let mut i: usize = 0;
    while i < n
        invariant
            n == s@.len(),
            i <= n,
            cs@ == s@.take(i as int),
        decreases n - i,
    {
        cs.push(s.get_char(i));
        i = i + 1;
        assert(cs@ =~= s@.take(i as int));
    }
    assert(s@.take(n as int) =~= s@);
    cs
}

/// The character of the decimal digit `d`.
pub open spec fn digit_char(d: int) -> char {
    (d + 48) as char
}

/// The decimal representation of `n`, most significant digit first, without
/// leading zeros ("0" for zero).
pub open spec fn decimal(n: nat) -> Seq<char>
    decreases n,
{
    if n < 10 {
        seq![digit_char(n as int)]
    } else {
        decimal(n / 10).push(digit_char((n % 10) as int))
    }
}

/// The number that a string of decimal digits denotes.
pub open spec fn decimal_value(d: Seq<char>) -> int
    decreases d.len(),
{
    if d.len() == 0 {
        0
    } else {
        decimal_value(d.drop_last()) * 10 + (d.last() as int - 48)
    }
}

/// Whether every character of `d` is a decimal digit.
pub open spec fn all_digits(d: Seq<char>) -> bool {
    forall|i: int| 0 <= i < d.len() ==> '0' <= #[trigger] d[i] <= '9'
}

/// A signed integer as Rust's `Display` writes it.
pub open spec fn signed_decimal(v: int) -> Seq<char> {
    if v < 0 {
        seq!['-'] + decimal((-v) as nat)
    } else {
        decimal(v as nat)
    }
}

/// Writes a signed integer in decimal.
pub fn signed_decimal_string(v: i64) -> (s: String)
    ensures
        s@ == signed_decimal(v as int),
{
    if v < 0 {
        let magnitude: u64 = ((-(v + 1)) as u64) + 1;
        let digits = decimal_string(magnitude);
        let mut s = String::from_str("-");
        proof {
            reveal_strlit("-");
        }
        s.append(digits.as_str());
        s
    } else {
        decimal_string(v as u64)
    }
}

/// `s` with a space before each group of three characters counted from the end,
/// except at the very start: "1234567" becomes "1 234 567".
pub open spec fn group_thousands(s: Seq<char>) -> Seq<char>
    decreases s.len(),
{
    if s.len() <= 3 {
        s
    } else {
        group_thousands(s.take(s.len() - 3)) + seq![' '] + s.skip(s.len() - 3)
    }
}

/// `s` without its spaces.
pub open spec fn without_spaces(s: Seq<char>) -> Seq<char> {
    s.filter(|c: char| c != ' ')
}

/// The one-character string of the decimal digit `d`.
fn digit_str(d: u64) -> (s: &'static str)
    requires
        d < 10,
    ensures
        s@ == seq![digit_char(d as int)],
{
    proof {
        reveal_strlit("0");
        reveal_strlit("1");
        reveal_strlit("2");
        reveal_strlit("3");
        reveal_strlit("4");
        reveal_strlit("5");
        reveal_strlit("6");
        reveal_strlit("7");
        reveal_strlit("8");
        reveal_strlit("9");
    }
    match d {
        0 => "0",
        1 => "1",
        2 => "2",
        3 => "3",
        4 => "4",
        5 => "5",
        6 => "6",
        7 => "7",
        8 => "8",
        _ => "9",
    }
}

/// The decimal representation of `n`.
pub fn decimal_string(n: u64) -> (s: String)
    ensures
        s@ == decimal(n as nat),
    decreases n,
{
    if n < 10 {
        String::from_str(digit_str(n))
    } else {
        let mut s = decimal_string(n / 10);
        s.append(digit_str(n % 10));
        s
    }
}

/// `s` with its characters grouped by three from the end, the groups parted by spaces.
pub fn group_thousands_string(s: &str) -> (g: String)
    ensures
        g@ == group_thousands(s@),
    decreases s@.len(),
{
    let n = s.unicode_len();
    if n <= 3 {
        String::from_str(s)
    } else {
        let head = s.substring_char(0, n - 3);
        let tail = s.substring_char(n - 3, n);
        let mut g = group_thousands_string(head);
        proof {
            reveal_strlit(" ");
        }
        g.append(" ");
        g.append(tail);
        assert(head@ =~= s@.take(s@.len() - 3));
        assert(tail@ =~= s@.skip(s@.len() - 3));
        g
    }
}

/// The decimal representation of a number is made of digits, and reads back as the number.
pub proof fn lemma_decimal_reads_back(n: nat)
    ensures
        decimal(n).len() >= 1,
        all_digits(decimal(n)),
        decimal_value(decimal(n)) == n,
    decreases n,
{
    if n < 10 {
        assert(digit_char(n as int) as int == n + 48);
        assert(decimal(n).drop_last() =~= Seq::<char>::empty());
        assert(decimal_value(Seq::<char>::empty()) == 0);
        assert(decimal_value(decimal(n)) == decimal_value(decimal(n).drop_last()) * 10 + (decimal(n).last() as int - 48));
    } else {
        lemma_decimal_reads_back(n / 10);
        assert(digit_char((n % 10) as int) as int == n % 10 + 48);
        assert(decimal(n).drop_last() =~= decimal(n / 10));
        assert(decimal(n).last() == digit_char((n % 10) as int));
        assert((n / 10) as int * 10 + n % 10 == n);
        assert(decimal_value(decimal(n)) == decimal_value(decimal(n).drop_last()) * 10 + (decimal(n).last() as int - 48));
    }
}

/// Grouping inserts spaces and nothing else: a string without spaces comes
/// back when they are taken out, and the first character stays first.
pub proof fn lemma_group_thousands_strips(s: Seq<char>)
    requires
        !s.contains(' '),
    ensures
        without_spaces(group_thousands(s)) == s,
        s.len() > 0 ==> group_thousands(s).len() > 0 && group_thousands(s)[0] == s[0],
    decreases s.len(),
{
    broadcast use Seq::filter_distributes_over_add;
    if s.len() <= 3 {
        lemma_no_spaces_filter(s);
    } else {
        let h = s.take(s.len() - 3);
        let t = s.skip(s.len() - 3);
        assert(!h.contains(' ')) by {
            if h.contains(' ') {
                let k = choose|k: int| 0 <= k < h.len() && h[k] == ' ';
                assert(s[k] == ' ');
            }
        }
        assert(!t.contains(' ')) by {
            if t.contains(' ') {
                let k = choose|k: int| 0 <= k < t.len() && t[k] == ' ';
                assert(s[s.len() - 3 + k] == ' ');
            }
        }
        lemma_group_thousands_strips(h);
        lemma_no_spaces_filter(t);
        let sp = seq![' '];
        assert(sp.filter(|c: char| c != ' ') =~= Seq::<char>::empty()) by {
            reveal_with_fuel(Seq::filter, 2);
        }
        let f = |c: char| c != ' ';
        assert(without_spaces(group_thousands(s)) == (group_thousands(h) + sp).filter(f) + t.filter(f));
        assert(without_spaces(group_thousands(s)) =~= h + t);
        assert(h + t =~= s);
    }
}

/// Grouping puts the digits in threes counted from the end: the result is one
/// space longer per complete group of three before the last digit, and a
/// character is a space exactly where it stands, away from the start, a
/// multiple of four characters before the end.
pub proof fn lemma_group_thousands_shape(s: Seq<char>)
    requires
        !s.contains(' '),
        s.len() > 0,
    ensures
        group_thousands(s).len() == s.len() + (s.len() - 1) / 3,
        forall|j: int|
            0 <= j < group_thousands(s).len() ==> (#[trigger] group_thousands(s)[j] == ' ' <==> (j > 0
                && (group_thousands(s).len() - j) % 4 == 0)),
    decreases s.len(),
{
    if s.len() > 3 {
        let h = s.take(s.len() - 3);
        let t = s.skip(s.len() - 3);
        assert(!h.contains(' ')) by {
            if h.contains(' ') {
                let k = choose|k: int| 0 <= k < h.len() && h[k] == ' ';
                assert(s[k] == ' ');
            }
        }
        lemma_group_thousands_shape(h);
        let gh = group_thousands(h);
        let g = group_thousands(s);
        assert(g == gh + seq![' '] + t);
        assert forall|j: int| 0 <= j < g.len() implies (#[trigger] g[j] == ' ' <==> (j > 0 && (g.len() - j) % 4 == 0)) by {
            if j < gh.len() {
                assert(g[j] == gh[j]);
                assert((g.len() - j) % 4 == (gh.len() - j) % 4);
            } else if j == gh.len() {
                assert(g[j] == ' ');
            } else {
                assert(g[j] == t[j - gh.len() - 1]);
                assert(g[j] == s[s.len() - 3 + (j - gh.len() - 1)]);
                if g[j] == ' ' {
                    assert(s.contains(' '));
                }
            }
        }
    } else {
        assert forall|j: int| 0 <= j < s.len() implies s[j] != ' ' by {
            if s[j] == ' ' {
                assert(s.contains(' '));
            }
        }
    }
}

proof fn lemma_no_spaces_filter(s: Seq<char>)
    requires
        !s.contains(' '),
    ensures
        s.filter(|c: char| c != ' ') == s,
    decreases s.len(),
{
    reveal(Seq::filter);
    if s.len() > 0 {
        assert(s.drop_last().len() < s.len());
        assert(!s.drop_last().contains(' ')) by {
            if s.drop_last().contains(' ') {
                let k = choose|k: int| 0 <= k < s.drop_last().len() && s.drop_last()[k] == ' ';
                assert(s[k] == ' ');
            }
        }
        lemma_no_spaces_filter(s.drop_last());
        assert(s.last() != ' ') by {
            assert(s[s.len() - 1] == s.last());
        }
        assert(s.drop_last().push(s.last()) =~= s);
    } else {
        assert(s.filter(|c: char| c != ' ') =~= s);
    }
}

/// The number that a sign and decimal digits denote, as `str::parse` reads
/// them: an optional `+` or `-`, then one or more ASCII digits and nothing else.
pub open spec fn signed_digits_value(s: Seq<char>) -> Option<int> {
    if s.len() == 0 {
        None
    } else {
        let neg = s[0] == '-';
        let d = if s[0] == '-' || s[0] == '+' {
            s.drop_first()
        } else {
            s
        };
        if d.len() > 0 && all_digits(d) {
            Some(
                if neg {
                    -decimal_value(d)
                } else {
                    decimal_value(d)
                },
            )
        } else {
            None
        }
    }
}

/// What `str::parse::<i64>` reads from `s`: the number its sign and digits
/// denote, where there are such and the number fits in an `i64`.
pub open spec fn parsed_i64(s: Seq<char>) -> Option<int> {
    match signed_digits_value(s) {
        Some(v) => if i64::MIN <= v <= i64::MAX {
            Some(v)
        } else {
            None
        },
        None => None,
    }
}

proof fn lemma_decimal_value_step(d: Seq<char>, j: int)
    requires
        0 <= j < d.len(),
    ensures
        decimal_value(d.take(j + 1)) == decimal_value(d.take(j)) * 10 + (d[j] as int - 48),
{
    assert(d.take(j + 1).drop_last() =~= d.take(j));
}

/// Reads a signed decimal integer the way `str::parse::<i64>` does.
pub fn parse_i64(text: &str) -> (value: Option<i64>)
    ensures
        match value {
            Some(v) => parsed_i64(text@) == Some(v as int),
            None => parsed_i64(text@) is None,
        },
{
    let cs = chars_of(text);
    let n = cs.len();
    if n == 0 {
        return None;
    }
    let neg = cs[0] == '-';
    let start: usize = if cs[0] == '-' || cs[0] == '+' {
        1
    } else {
        0
    };
    if start == n {
        assert(text@.drop_first().len() == 0);
        return None;
    }
    let ghost d = cs@.skip(start as int);
    let limit: u128 = 9_223_372_036_854_775_808;
    let mut acc: u128 = 0;
    let mut over = false;
    let mut i: usize = start;
    while i < n
        invariant
            cs@ == text@,
            n == cs@.len(),
            n > 0,
            limit == 9_223_372_036_854_775_808,
            neg == (cs@[0] == '-'),
            start == (if cs@[0] == '-' || cs@[0] == '+' { 1int } else { 0int }),
            start <= i <= n,
            start <= 1,
            d == cs@.skip(start as int),
            all_digits(d.take(i - start)),
            !over ==> acc == decimal_value(d.take(i - start)) && acc <= limit,
            over ==> decimal_value(d.take(i - start)) > limit,
            decimal_value(d.take(i - start)) >= 0,
        decreases n - i,
    {
        let c = cs[i];
        if c < '0' || c > '9' {
            assert(d[i - start] == c);
            assert(!all_digits(d));
            assert(start == 1 ==> d =~= text@.drop_first());
            assert(start == 0 ==> d =~= text@);
            return None;
        }
        let digit: u128 = (c as u32 - 48) as u128;
        proof {
            lemma_decimal_value_step(d, i - start);
            assert(d[i - start] == c);
        }
        if !over {
            acc = acc * 10 + digit;
            if acc > limit {
                over = true;
            }
        }
        assert(d.take(i + 1 - start) =~= d.take(i - start).push(c));
        i = i + 1;
    }
    assert(d.take(n - start) =~= d);
    assert(start == 1 ==> d =~= text@.drop_first());
    assert(start == 0 ==> d =~= text@);
    if over {
        return None;
    }
    if neg {
        if acc == limit {
            Some(i64::MIN)
        } else {
            Some(-(acc as i64))
        }
    } else {
        if acc == limit {
            None
        } else {
            Some(acc as i64)
        }
    }
}

/// A number written in decimal, as the calculator form shows it, reads back
/// as the same number.
pub proof fn lemma_parse_reads_written_number(v: i64)
    ensures
        parsed_i64(signed_decimal(v as int)) == Some(v as int),
{
    let n: nat = if v < 0 {
        (-v) as nat
    } else {
        v as nat
    };
    lemma_decimal_reads_back(n);
    let d = decimal(n);
    assert('0' <= d[0] <= '9');
    if v < 0 {
        assert((seq!['-'] + d).drop_first() =~= d);
        assert((seq!['-'] + d)[0] == '-');
    }
}

} // verus!
