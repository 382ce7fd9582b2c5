use vstd::prelude::*;

verus! {

/// Unicode `White_Space`: the characters that separate words on a command line.
pub open spec fn is_space_spec(c: char) -> bool {
    let u = c as u32;
    (0x09 <= u && u <= 0x0D) || u == 0x20 || u == 0x85 || u == 0xA0 || u == 0x1680 || (0x2000
        <= u && u <= 0x200A) || u == 0x2028 || u == 0x2029 || u == 0x202F || u == 0x205F || u
        == 0x3000
}

/// Whether `c` is white space, as `char::is_whitespace` has it.
pub fn is_space(c: char) -> (r: bool)
    ensures
        r == is_space_spec(c),
{
    let u = c as u32;
    (0x09 <= u && u <= 0x0D) || u == 0x20 || u == 0x85 || u == 0xA0 || u == 0x1680 || (0x2000
        <= u && u <= 0x200A) || u == 0x2028 || u == 0x2029 || u == 0x202F || u == 0x205F || u
        == 0x3000
}

/// The word in progress, as a list of zero or one words.
pub open spec fn flush(cur: Seq<char>) -> Seq<Seq<char>> {
    if cur.len() == 0 {
        seq![]
    } else {
        seq![cur]
    }
}

/// The words of `s`, given that `cur` was read just before it.
pub open spec fn words_after(s: Seq<char>, cur: Seq<char>) -> Seq<Seq<char>>
    decreases s.len(),
{
    if s.len() == 0 {
        flush(cur)
    } else if is_space_spec(s[0]) {
        flush(cur) + words_after(s.drop_first(), seq![])
    } else {
        words_after(s.drop_first(), cur.push(s[0]))
    }
}

/// The maximal runs of non-space characters of `s`, in order.
pub open spec fn words(s: Seq<char>) -> Seq<Seq<char>> {
    words_after(s, seq![])
}

/// The texts of a list of strings.
pub open spec fn views(v: Seq<String>) -> Seq<Seq<char>> {
    v.map_values(|w: String| w@)
}

/// Splits `s` at runs of white space; no word is empty.
pub fn split_words(s: &str) -> (r: Vec<String>)
    ensures
        views(r@) == words(s@),
{
    let n = s.unicode_len();
    let mut out: Vec<String> = Vec::new();
    let mut start: usize = 0;
    let mut i: usize = 0;
    assert(s@.subrange(0, n as int) =~= s@);
    assert(s@.subrange(0, 0) =~= seq![]);
    assert(views(out@) =~= seq![]);
    assert(views(out@) + words(s@) =~= words(s@));
    while i < n
        invariant
            n == s@.len(),
            start <= i <= n,
            words(s@) == views(out@) + words_after(s@.subrange(i as int, n as int), s@.subrange(start as int, i as int)),
        decreases n - i,
    {
        let c = s.get_char(i);
        let ghost rest = s@.subrange(i as int, n as int);
        let ghost cur = s@.subrange(start as int, i as int);
        assert(rest.drop_first() =~= s@.subrange(i + 1, n as int));
        let ghost before = out@;
        if is_space(c) {
            if start < i {
                let w = String::from_str(s.substring_char(start, i));
                out.push(w);
                assert(views(out@) =~= views(before) + flush(cur));
            } else {
                assert(flush(cur) =~= seq![]);
                assert(views(out@) =~= views(before) + flush(cur));
            }
            assert(words_after(rest, cur) == flush(cur) + words_after(rest.drop_first(), seq![]));
            assert(s@.subrange(i + 1, i + 1) =~= seq![]);
            start = i + 1;
        } else {
            assert(cur.push(c) =~= s@.subrange(start as int, i + 1));
        }
        i = i + 1;
    }
    assert(s@.subrange(n as int, n as int) =~= seq![]);
    if start < n {
        let w = String::from_str(s.substring_char(start, n));
        out.push(w);
    }
    out
}

/// `s` without its leading white space.
pub open spec fn trim_start(s: Seq<char>) -> Seq<char>
    decreases s.len(),
{
    if s.len() > 0 && is_space_spec(s[0]) {
        trim_start(s.drop_first())
    } else {
        s
    }
}

/// `s` without its trailing white space.
pub open spec fn trim_end(s: Seq<char>) -> Seq<char>
    decreases s.len(),
{
    if s.len() > 0 && is_space_spec(s.last()) {
        trim_end(s.drop_last())
    } else {
        s
    }
}

/// `s` without white space at either end, as `str::trim` gives it.
pub open spec fn trimmed(s: Seq<char>) -> Seq<char> {
    trim_end(trim_start(s))
}

/// Copies `s` without white space at either end.
pub fn trim(s: &str) -> (r: String)
    ensures
        r@ == trimmed(s@),
{
    let n = s.unicode_len();
    let mut a: usize = 0;
    assert(s@.subrange(0, n as int) =~= s@);
    while a < n && is_space(s.get_char(a))
        invariant
            n == s@.len(),
            a <= n,
            trim_start(s@) == trim_start(s@.subrange(a as int, n as int)),
        decreases n - a,
    {
        assert(s@.subrange(a as int, n as int).drop_first() =~= s@.subrange(a + 1, n as int));
        a = a + 1;
    }
    let ghost front = s@.subrange(a as int, n as int);
    assert(trim_start(s@) == front);
    let mut b: usize = n;
    while b > a && is_space(s.get_char(b - 1))
        invariant
            n == s@.len(),
            a <= b <= n,
            front == s@.subrange(a as int, n as int),
            trim_end(front) == trim_end(s@.subrange(a as int, b as int)),
        decreases b - a,
    {
        assert(s@.subrange(a as int, b as int).drop_last() =~= s@.subrange(a as int, b - 1));
        b = b - 1;
    }
    String::from_str(s.substring_char(a, b))
}

/// `s` with each `~` replaced by `home`.
pub open spec fn expand_tilde(s: Seq<char>, home: Seq<char>) -> Seq<char>
    decreases s.len(),
{
    if s.len() == 0 {
        seq![]
    } else {
        expand_tilde(s.drop_last(), home) + if s.last() == '~' {
            home
        } else {
            seq![s.last()]
        }
    }
}

/// Copies `s`, writing `home` in place of each `~`.
pub fn replace_tilde(s: &str, home: &str) -> (r: String)
    ensures
        r@ == expand_tilde(s@, home@),
{
    let n = s.unicode_len();
    let mut out = String::new();
    let mut i: usize = 0;
    assert(s@.subrange(0, 0) =~= seq![]);
    while i < n
        invariant
            n == s@.len(),
            i <= n,
            out@ == expand_tilde(s@.subrange(0, i as int), home@),
        decreases n - i,
    {
        let c = s.get_char(i);
        assert(s@.subrange(0, i + 1).drop_last() =~= s@.subrange(0, i as int));
        if c == '~' {
            out.append(home);
        } else {
            let one = s.substring_char(i, i + 1);
            assert(one@ =~= seq![c]);
            out.append(one);
        }
        i = i + 1;
    }
    assert(s@.subrange(0, n as int) =~= s@);
    out
}

/// The words joined by single spaces.
pub open spec fn joined_words(ws: Seq<Seq<char>>) -> Seq<char>
    decreases ws.len(),
{
    if ws.len() == 0 {
        seq![]
    } else if ws.len() == 1 {
        ws[0]
    } else {
        joined_words(ws.drop_last()) + " "@ + ws.last()
    }
}

/// Joins the words with single spaces.
pub fn join_words(ws: &Vec<String>) -> (r: String)
    ensures
        r@ == joined_words(views(ws@)),
{
    if ws.len() == 0 {
        return String::new();
    }
    let mut out = ws[0].clone();
    let mut i: usize = 1;
    assert(views(ws@).subrange(0, 1) =~= seq![ws@[0]@]);
    while i < ws.len()
        invariant
            1 <= i <= ws.len(),
            out@ == joined_words(views(ws@).subrange(0, i as int)),
        decreases ws.len() - i,
    {
        assert(views(ws@).subrange(0, i + 1).drop_last() =~= views(ws@).subrange(0, i as int));
        out.append(" ");
        out.append(ws[i].as_str());
        i = i + 1;
    }
    assert(views(ws@).subrange(0, ws.len() as int) =~= views(ws@));
    out
}

/// Whether two texts are the same, character for character.
pub fn same_text(a: &str, b: &str) -> (r: bool)
    ensures
        r == (a@ == b@),
{
    let n = a.unicode_len();
    if n != b.unicode_len() {
        return false;
    }
    let mut i: usize = 0;
    while i < n
        invariant
            n == a@.len() == b@.len(),
            i <= n,
            forall|j: int| 0 <= j < i ==> a@[j] == b@[j],
        decreases n - i,
    {
        if a.get_char(i) != b.get_char(i) {
            return false;
        }
        i = i + 1;
    }
    assert(a@ =~= b@);
    true
}

/// Whether `c` is one of the ASCII digits `0` to `9`.
pub open spec fn is_digit_spec(c: char) -> bool {
    48 <= c as u32 && c as u32 <= 57
}

/// The value of an ASCII digit.
pub open spec fn digit_value(c: char) -> int {
    c as u32 - 48
}

/// The number that a run of decimal digits writes.
pub open spec fn digits_value(d: Seq<char>) -> int
    decreases d.len(),
{
    if d.len() == 0 {
        0
    } else {
        digits_value(d.drop_last()) * 10 + digit_value(d.last())
    }
}

/// Whether `d` is one or more ASCII digits.
pub open spec fn all_digits(d: Seq<char>) -> bool {
    d.len() > 0 && forall|i: int| 0 <= i < d.len() ==> is_digit_spec(#[trigger] d[i])
}

/// The `i32` that `s` writes: an optional sign, then one or more decimal digits, in range;
/// `None` for anything else, as `str::parse::<i32>` has it.
pub open spec fn status_of(s: Seq<char>) -> Option<i32> {
    let signed = s.len() > 0 && (s[0] == '-' || s[0] == '+');
    let d = if signed {
        s.drop_first()
    } else {
        s
    };
    let v = if s.len() > 0 && s[0] == '-' {
        -digits_value(d)
    } else {
        digits_value(d)
    };
    if all_digits(d) && i32::MIN <= v <= i32::MAX {
        Some(v as i32)
    } else {
        None
    }
}

/// Above every magnitude that an `i32` can hold.
const CAP: i64 = 2147483649;

/// Reads an `i32` written in decimal, with an optional sign.
pub fn parse_status(s: &str) -> (r: Option<i32>)
    ensures
        r == status_of(s@),
{
    let n = s.unicode_len();
    if n == 0 {
        return None;
    }
    let first = s.get_char(0);
    let neg = first == '-';
    assert(s@[0] == first);
    let start: usize = if first == '-' || first == '+' {
        1
    } else {
        0
    };
    let ghost d = s@.subrange(start as int, n as int);
    assert(start == 1 ==> d =~= s@.drop_first());
    assert(start == 0 ==> d =~= s@);
    if start == n {
        return None;
    }
    let mut acc: i64 = 0;
    let mut i: usize = start;
    assert(s@.subrange(start as int, start as int) =~= seq![]);
    while i < n
        invariant
            n == s@.len(),
            n > 0,
            start <= i <= n,
            start == 1 <==> (s@[0] == '-' || s@[0] == '+'),
            start == 0 <==> !(s@[0] == '-' || s@[0] == '+'),
            neg == (s@[0] == '-'),
            d == s@.subrange(start as int, n as int),
            forall|j: int| start <= j < i ==> is_digit_spec(#[trigger] s@[j]),
            0 <= digits_value(s@.subrange(start as int, i as int)),
            acc == if digits_value(s@.subrange(start as int, i as int)) < CAP {
                digits_value(s@.subrange(start as int, i as int))
            } else {
                CAP as int
            },
        decreases n - i,
    {
        let c = s.get_char(i);
        if !(48 <= c as u32 && c as u32 <= 57) {
            assert(d[i - start] == c);
            assert(!is_digit_spec(d[i - start]));
            assert(!all_digits(d));
            return None;
        }
        let ghost v = digits_value(s@.subrange(start as int, i as int));
        assert(s@.subrange(start as int, i + 1).drop_last() =~= s@.subrange(start as int, i as int));
        let dig = (c as u32 - 48) as i64;
        if acc >= 214748365 {
            assert(v * 10 >= 2147483650) by (nonlinear_arith)
                requires
                    v >= 214748365,
            ;
            acc = CAP;
        } else {
            let next = acc * 10 + dig;
            acc = if next < CAP {
                next
            } else {
                CAP
            };
        }
        i = i + 1;
    }
    assert(s@.subrange(start as int, n as int) == d);
    assert(all_digits(d));
    if acc == CAP {
        return None;
    }
    if neg {
        Some((-acc) as i32)
    } else if acc <= 2147483647 {
        Some(acc as i32)
    } else {
        None
    }
}

} // verus!
