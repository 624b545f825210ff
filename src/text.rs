//! Small verified helpers on strings.

use vstd::prelude::*;

verus! {

/// Character-wise equality of two strings.
pub fn str_eq(a: &str, b: &str) -> (r: bool)
    ensures
        r == (a@ == b@),
{
    let n = a.unicode_len();
    if n != b.unicode_len() {
        return false;
    }
    let mut i: usize = 0;
    while i < n
        invariant
            n == a@.len(),
            n == b@.len(),
            i <= n,
            a@.subrange(0, i as int) == b@.subrange(0, i as int),
        decreases n - i,
    {
        if a.get_char(i) != b.get_char(i) {
            return false;
        }
        assert(a@.subrange(0, i + 1) == a@.subrange(0, i as int).push(a@[i as int]));
        assert(b@.subrange(0, i + 1) == b@.subrange(0, i as int).push(b@[i as int]));
        i = i + 1;
    }
    assert(a@ == a@.subrange(0, n as int));
    assert(b@ == b@.subrange(0, n as int));
    true
}


/// `name` appended to `base` as one more path component, with a `/`
/// between them unless `base` is empty or already ends in one.
pub open spec fn path_join(base: Seq<char>, name: Seq<char>) -> Seq<char> {
    if base.len() == 0 {
        name
    } else if base.last() == '/' {
        base + name
    } else {
        base + seq!['/'] + name
    }
}

pub fn join_path(base: &str, name: &str) -> (r: String)
    ensures
        r@ == path_join(base@, name@),
{
    let n = base.unicode_len();
    if n == 0 {
        return to_string_exact(name);
    }
    let mut r = to_string_exact(base);
    if base.get_char(n - 1) != '/' {
        proof {
            reveal_strlit("/");
        }
        r.append("/");
    }
    r.append(name);
    r
}

/// Copies a string slice into a new `String`.
pub fn to_string_exact(s: &str) -> (r: String)
    ensures
        r@ == s@,
{
    String::from_str(s)
}


/// `s` without the `/` characters it ends with.
pub open spec fn trim_trailing_slashes(s: Seq<char>) -> Seq<char>
    decreases s.len(),
{
    if s.len() > 0 && s.last() == '/' {
        trim_trailing_slashes(s.drop_last())
    } else {
        s
    }
}

/// The characters of `s` after its last `/` (all of `s` if it has none).
pub open spec fn last_component(s: Seq<char>) -> Seq<char>
    decreases s.len(),
{
    if s.len() == 0 || s.last() == '/' {
        Seq::empty()
    } else {
        last_component(s.drop_last()).push(s.last())
    }
}

/// The final name of a path: its last component once trailing slashes are
/// dropped, unless that is empty, `.` or `..`.
pub open spec fn final_name(path: Seq<char>) -> Option<Seq<char>> {
    let c = last_component(trim_trailing_slashes(path));
    if c.len() == 0 || c == "."@ || c == ".."@ {
        None
    } else {
        Some(c)
    }
}

/// Where the final component of `path` lies: it starts at `r.0` and ends at
/// `r.1`, where the trailing slashes start.
pub fn final_component_bounds(path: &str) -> (r: (usize, usize))
    ensures
        r.0 <= r.1 <= path@.len(),
        path@.subrange(0, r.1 as int) == trim_trailing_slashes(path@),
        path@.subrange(r.0 as int, r.1 as int) == last_component(trim_trailing_slashes(path@)),
{
    let n = path.unicode_len();
    let mut end: usize = n;
    assert(path@.subrange(0, n as int) =~= path@);
    while end > 0 && path.get_char(end - 1) == '/'
        invariant
            end <= n,
            n == path@.len(),
            trim_trailing_slashes(path@) == trim_trailing_slashes(path@.subrange(0, end as int)),
        decreases end,
    {
        assert(path@.subrange(0, end as int).drop_last() =~= path@.subrange(0, end - 1));
        end = end - 1;
    }
    let ghost t = path@.subrange(0, end as int);
    assert(trim_trailing_slashes(path@) == t);
    let mut start: usize = end;
    while start > 0 && path.get_char(start - 1) != '/'
        invariant
            start <= end <= n,
            n == path@.len(),
            t == path@.subrange(0, end as int),
            last_component(t) == last_component(path@.subrange(0, start as int)) + path@.subrange(
                start as int,
                end as int,
            ),
        decreases start,
    {
        let ghost p = path@.subrange(0, start as int);
        assert(p.drop_last() =~= path@.subrange(0, start - 1));
        assert(path@.subrange(start - 1, end as int) =~= seq![p.last()] + path@.subrange(
            start as int,
            end as int,
        ));
        assert(last_component(p.drop_last()).push(p.last()) + path@.subrange(start as int, end as int)
            =~= last_component(p.drop_last()) + path@.subrange(start - 1, end as int));
        start = start - 1;
    }
    assert(last_component(path@.subrange(0, start as int)) =~= Seq::<char>::empty());
    assert(path@.subrange(start as int, end as int) =~= last_component(t));
    (start, end)
}

pub fn file_name_of(path: &str) -> (r: Option<String>)
    ensures
        r matches Some(s) ==> final_name(path@) == Some(s@),
        r is None ==> final_name(path@) is None,
{
    let (start, end) = final_component_bounds(path);
    let c = path.substring_char(start, end);
    if start == end || str_eq(c, ".") || str_eq(c, "..") {
        None
    } else {
        Some(to_string_exact(c))
    }
}

/// Where the last `ch` of `s` stands, if it holds one.
pub open spec fn last_index_of(s: Seq<char>, ch: char) -> Option<nat>
    decreases s.len(),
{
    if s.len() == 0 {
        None
    } else if s.last() == ch {
        Some((s.len() - 1) as nat)
    } else {
        last_index_of(s.drop_last(), ch)
    }
}

pub proof fn lemma_last_index_in_range(s: Seq<char>, ch: char)
    ensures
        last_index_of(s, ch) matches Some(k) ==> k < s.len() && s[k as int] == ch,
    decreases s.len(),
{
    if s.len() > 0 && s.last() != ch {
        lemma_last_index_in_range(s.drop_last(), ch);
    }
}

/// Where the extension of a name starts: after its last dot, unless the
/// name has none or its only dot is its first character.
pub open spec fn extension_dot(name: Seq<char>) -> Option<nat> {
    match last_index_of(name, '.') {
        Some(k) => if k > 0 {
            Some(k)
        } else {
            None
        },
        None => None,
    }
}

/// The extension of the final name of `path`.
pub open spec fn extension(path: Seq<char>) -> Option<Seq<char>> {
    match final_name(path) {
        Some(c) => match extension_dot(c) {
            Some(k) => Some(c.subrange(k as int + 1, c.len() as int)),
            None => None,
        },
        None => None,
    }
}

pub fn find_last(s: &str, ch: char) -> (r: Option<usize>)
    ensures
        r matches Some(k) ==> last_index_of(s@, ch) == Some(k as nat),
        r is None ==> last_index_of(s@, ch) is None,
{
    let n = s.unicode_len();
    let mut i: usize = n;
    assert(s@.subrange(0, n as int) =~= s@);
    while i > 0
        invariant
            i <= n,
            n == s@.len(),
            last_index_of(s@, ch) == last_index_of(s@.subrange(0, i as int), ch),
        decreases i,
    {
        if s.get_char(i - 1) == ch {
            return Some(i - 1);
        }
        assert(s@.subrange(0, i as int).drop_last() =~= s@.subrange(0, i - 1));
        i = i - 1;
    }
    None
}

pub fn extension_of(path: &str) -> (r: Option<String>)
    ensures
        r matches Some(e) ==> extension(path@) == Some(e@),
        r is None ==> extension(path@) is None,
{
    match file_name_of(path) {
        None => None,
        Some(name) => match find_last(name.as_str(), '.') {
            Some(k) => {
                proof {
                    lemma_last_index_in_range(name@, '.');
                }
                if k > 0 {
                    let n = name.as_str().unicode_len();
                    Some(to_string_exact(name.as_str().substring_char(k + 1, n)))
                } else {
                    None
                }
            },
            None => None,
        },
    }
}

pub open spec fn digit_char(d: nat) -> char {
    if d == 0 {
        '0'
    } else if d == 1 {
        '1'
    } else if d == 2 {
        '2'
    } else if d == 3 {
        '3'
    } else if d == 4 {
        '4'
    } else if d == 5 {
        '5'
    } else if d == 6 {
        '6'
    } else if d == 7 {
        '7'
    } else if d == 8 {
        '8'
    } else {
        '9'
    }
}

/// The decimal digits of `n`, without leading zeros.
pub open spec fn decimal(n: nat) -> Seq<char>
    decreases n,
{
    if n < 10 {
        seq![digit_char(n)]
    } else {
        decimal(n / 10).push(digit_char(n % 10))
    }
}

fn digit_str(d: u128) -> (r: &'static str)
    requires
        d < 10,
    ensures
        r@ == seq![digit_char(d as nat)],
{
    proof {
        reveal_strlit("0");
        reveal_strlit("1");
        reveal_strlit("2");
        reveal_strlit("3");
        reveal_strlit("4");
        reveal_strlit("5");
        reveal_strlit("6");
        reveal_strlit("7");
        reveal_strlit("8");
        reveal_strlit("9");
    }
    let r = if d == 0 {
        "0"
    } else if d == 1 {
        "1"
    } else if d == 2 {
        "2"
    } else if d == 3 {
        "3"
    } else if d == 4 {
        "4"
    } else if d == 5 {
        "5"
    } else if d == 6 {
        "6"
    } else if d == 7 {
        "7"
    } else if d == 8 {
        "8"
    } else {
        "9"
    };
    assert(r@ =~= seq![digit_char(d as nat)]);
    r
}

/// Appends the decimal digits of `n`.
pub fn push_decimal(out: &mut String, n: u128)
    ensures
        final(out)@ == old(out)@ + decimal(n as nat),
    decreases n,
{
    if n >= 10 {
        push_decimal(out, n / 10);
    }
    out.append(digit_str(n % 10));
    assert(old(out)@ + decimal(n as nat) =~= if n >= 10 {
        old(out)@ + decimal((n / 10) as nat) + seq![digit_char((n % 10) as nat)]
    } else {
        old(out)@ + seq![digit_char((n % 10) as nat)]
    });
}

/// `prefix` followed by the decimal digits of `n` and then `suffix`.
pub fn numbered(prefix: &str, n: u128, suffix: &str) -> (r: String)
    ensures
        r@ == prefix@ + decimal(n as nat) + suffix@,
{
    let mut r = to_string_exact(prefix);
    push_decimal(&mut r, n);
    r.append(suffix);
    r
}


pub open spec fn is_digit(c: char) -> bool {
    '0' <= c && c <= '9'
}

pub open spec fn digit_value(c: char) -> nat {
    (c as u32 - '0' as u32) as nat
}

/// The number that a run of decimal digits spells.
pub open spec fn digits_value(s: Seq<char>) -> nat
    decreases s.len(),
{
    if s.len() == 0 {
        0
    } else {
        digits_value(s.drop_last()) * 10 + digit_value(s.last())
    }
}

pub open spec fn all_digits(d: Seq<char>) -> bool {
    forall|i: int| 0 <= i < d.len() ==> is_digit(#[trigger] d[i])
}

/// The digits of an unsigned decimal: an optional `+`, then at least one digit.
pub open spec fn unsigned_digits(s: Seq<char>) -> Option<Seq<char>> {
    let d = if s.len() > 0 && s[0] == '+' {
        s.drop_first()
    } else {
        s
    };
    if d.len() > 0 && all_digits(d) {
        Some(d)
    } else {
        None
    }
}

/// The value of `s` read as an unsigned decimal that fits in a `usize`.
pub open spec fn usize_value(s: Seq<char>) -> Option<nat> {
    match unsigned_digits(s) {
        Some(d) => if digits_value(d) <= usize::MAX {
            Some(digits_value(d))
        } else {
            None
        },
        None => None,
    }
}

/// A run of digits spells at least what any of its prefixes spells.
pub proof fn lemma_digits_prefix_le(d: Seq<char>, m: int)
    requires
        0 <= m <= d.len(),
    ensures
        digits_value(d.subrange(0, m)) <= digits_value(d),
    decreases d.len(),
{
    if m < d.len() {
        let front = d.drop_last();
        lemma_digits_prefix_le(front, m);
        assert(d.subrange(0, m) =~= front.subrange(0, m));
    } else {
        assert(d.subrange(0, m) =~= d);
    }
}

pub fn parse_usize(s: &str) -> (r: Option<usize>)
    ensures
        r matches Some(n) ==> usize_value(s@) == Some(n as nat),
        r is None ==> usize_value(s@) is None,
{
    let n = s.unicode_len();
    let mut start: usize = 0;
    if n > 0 && s.get_char(0) == '+' {
        start = 1;
    }
    let ghost d = s@.subrange(start as int, n as int);
    assert(d =~= if s@.len() > 0 && s@[0] == '+' {
        s@.drop_first()
    } else {
        s@
    });
    assert(unsigned_digits(s@) is Some ==> unsigned_digits(s@) == Some(d));
    if start == n {
        return None;
    }
    let mut acc: usize = 0;
    let mut i: usize = start;
    while i < n
        invariant
            start <= i <= n,
            n == s@.len(),
            d == s@.subrange(start as int, n as int),
            unsigned_digits(s@) is Some ==> unsigned_digits(s@) == Some(d),
            d == (if s@.len() > 0 && s@[0] == '+' {
                s@.drop_first()
            } else {
                s@
            }),
            forall|k: int| start <= k < i ==> is_digit(#[trigger] s@[k]),
            acc == digits_value(s@.subrange(start as int, i as int)),
        decreases n - i,
    {
        let c = s.get_char(i);
        if !('0' <= c && c <= '9') {
            assert(d[i - start] == s@[i as int]);
            assert(!is_digit(d[i - start]));
            assert(unsigned_digits(s@) is None) by {
                if unsigned_digits(s@) is Some {
                    let x = if s@.len() > 0 && s@[0] == '+' {
                        s@.drop_first()
                    } else {
                        s@
                    };
                    assert(x == d);
                    assert(all_digits(x));
                    assert(is_digit(x[i - start]));
                }
            }
            return None;
        }
        let v = (c as u32 - '0' as u32) as usize;
        assert(s@.subrange(start as int, i + 1).drop_last() =~= s@.subrange(start as int, i as int));
        if acc > (usize::MAX - v) / 10 {
            proof {
                let p = s@.subrange(start as int, i + 1);
                assert(digits_value(p) == acc * 10 + v);
                assert(acc * 10 + v > usize::MAX) by (nonlinear_arith)
                    requires
                        acc > (usize::MAX - v) / 10,
                        v <= 9,
                ;
                lemma_digits_prefix_le(d, i + 1 - start);
                assert(d.subrange(0, i + 1 - start) =~= p);
            }
            return None;
        }
        proof {
            assert(acc * 10 + v <= usize::MAX) by (nonlinear_arith)
                requires
                    acc <= (usize::MAX - v) / 10,
                    v <= 9,
            ;
        }
        acc = acc * 10 + v;
        i = i + 1;
    }
    assert(s@.subrange(start as int, n as int) == d);
    Some(acc)
}

} // verus!
