//! Small verified string helpers used across the crate.

use vstd::prelude::*;

verus! {

/// String-slice equality, specified over the character views.
pub fn str_eq(a: &str, b: &str) -> (r: bool)
    ensures
        r == (a@ == b@),
{
    let sa = String::from_str(a);
    let sb = String::from_str(b);
    sa == sb
}

/// Two characters match ignoring ASCII case.
pub open spec fn char_eq_ci(x: char, y: char) -> bool {
    ||| x == y
    ||| ('A' <= x && x <= 'Z' && x as int + 32 == y as int)
    ||| ('A' <= y && y <= 'Z' && y as int + 32 == x as int)
}

/// Two character sequences match ignoring ASCII case.
pub open spec fn eq_ci(a: Seq<char>, b: Seq<char>) -> bool {
    a.len() == b.len() && forall|i: int| 0 <= i < a.len() ==> char_eq_ci(#[trigger] a[i], #[trigger] b[i])
}

/// Case-insensitive (ASCII) string comparison.
pub fn eq_ignore_case(a: &str, b: &str) -> (r: bool)
    ensures
        r == eq_ci(a@, b@),
{
    let an = a.unicode_len();
    let bn = b.unicode_len();
    if an != bn {
        return false;
    }
    let mut i: usize = 0;
    while i < an
        invariant
            i <= an,
            an == a@.len(),
            bn == b@.len(),
            an == bn,
            forall|j: int| 0 <= j < i ==> char_eq_ci(#[trigger] a@[j], #[trigger] b@[j]),
        decreases an - i,
    {
        let x = a.get_char(i);
        let y = b.get_char(i);
        let xu = x as u32;
        let yu = y as u32;
        let m = xu == yu
            || (65 <= xu && xu <= 90 && xu + 32 == yu)
            || (65 <= yu && yu <= 90 && yu + 32 == xu);
        proof {
            assert(m == char_eq_ci(a@[i as int], b@[i as int]));
        }
        if !m {
            return false;
        }
        i = i + 1;
    }
    true
}

/// The suffix of `s` after its last occurrence of `c`; all of `s` when
/// `c` does not occur.
pub open spec fn after_last(s: Seq<char>, c: char) -> Seq<char>
    decreases s.len(),
{
    if s.len() == 0 {
        s
    } else if s.last() == c {
        Seq::empty()
    } else {
        after_last(s.drop_last(), c).push(s.last())
    }
}

/// Index of the last occurrence of `c` in `s`, or -1.
pub open spec fn last_pos(s: Seq<char>, c: char) -> int
    decreases s.len(),
{
    if s.len() == 0 {
        -1
    } else if s.last() == c {
        s.len() - 1
    } else {
        last_pos(s.drop_last(), c)
    }
}

pub proof fn lemma_last_pos(s: Seq<char>, c: char)
    ensures
        -1 <= last_pos(s, c) < s.len(),
        last_pos(s, c) >= 0 ==> s[last_pos(s, c)] == c,
        forall|j: int| last_pos(s, c) < j < s.len() ==> s[j] != c,
        after_last(s, c) == s.subrange(last_pos(s, c) + 1, s.len() as int),
    decreases s.len(),
{
    if s.len() == 0 {
        assert(after_last(s, c) =~= s.subrange(0, 0));
    } else if s.last() == c {
        assert(after_last(s, c) =~= s.subrange(s.len() as int, s.len() as int));
    } else {
        lemma_last_pos(s.drop_last(), c);
        let p = last_pos(s, c);
        assert(forall|j: int| 0 <= j < s.len() - 1 ==> #[trigger] s[j] == s.drop_last()[j]);
        assert(after_last(s, c)
            =~= s.subrange(p + 1, s.len() as int));
    }
}

/// The index found by a backwards scan is the last occurrence.
pub proof fn lemma_last_pos_unique(s: Seq<char>, c: char, k: int)
    requires
        0 <= k < s.len(),
        s[k] == c,
        forall|j: int| k < j < s.len() ==> s[j] != c,
    ensures
        k == last_pos(s, c),
{
    lemma_last_pos(s, c);
    if last_pos(s, c) < k {
        assert(s[k] != c);
    }
    if last_pos(s, c) > k {
        assert(s[last_pos(s, c)] != c);
    }
}

/// The extension of a path: what follows the last dot of the basename,
/// empty when the basename has no dot, or only a leading one.
pub open spec fn ext_of(path: Seq<char>) -> Seq<char> {
    let base = after_last(path, '/');
    let e = after_last(base, '.');
    if e.len() == base.len() {
        Seq::empty()
    } else if e.len() == base.len() - 1 {
        Seq::empty()
    } else {
        e
    }
}

/// Extract the extension of a path, as [`ext_of`] describes.
pub fn extension_of(path: &str) -> (r: String)
    ensures
        r@ == ext_of(path@),
{
    let n = path.unicode_len();
    let ghost s = path@;
    // Last slash position, or n when there is none.
    let mut slash: usize = n;
    let mut i: usize = n;
    while i > 0
        invariant
            s == path@,
            i <= n,
            slash <= n,
            n == s.len(),
            slash == n ==> forall|j: int| i <= j < n ==> s[j] != '/',
            slash < n ==> i <= slash && s[slash as int] == '/'
                && (forall|j: int| slash < j < n ==> s[j] != '/'),
        decreases i,
    {
        i = i - 1;
        if path.get_char(i) == '/' {
            if slash == n {
                slash = i;
            }
        }
    }
    let base_start: usize = if slash == n { 0 } else { slash + 1 };
    proof {
        lemma_last_pos(s, '/');
        if slash == n {
            if last_pos(s, '/') >= 0 {
                assert(s[last_pos(s, '/')] != '/');
            }
        } else {
            lemma_last_pos_unique(s, '/', slash as int);
        }
        assert(base_start as int == last_pos(s, '/') + 1);
        assert(after_last(s, '/') == s.subrange(base_start as int, n as int));
    }
    let ghost base = after_last(s, '/');
    // Last dot position within the basename, or n when there is none.
    let mut dot: usize = n;
    let mut k: usize = n;
    while k > base_start
        invariant
            s == path@,
            base_start <= k <= n,
            dot <= n,
            n == s.len(),
            dot == n ==> forall|j: int| k <= j < n ==> s[j] != '.',
            dot < n ==> k <= dot && s[dot as int] == '.'
                && (forall|j: int| dot < j < n ==> s[j] != '.'),
        decreases k,
    {
        k = k - 1;
        if path.get_char(k) == '.' {
            if dot == n {
                dot = k;
            }
        }
    }
    proof {
        lemma_last_pos(base, '.');
        assert(base =~= s.subrange(base_start as int, n as int));
        assert(base.len() == n - base_start);
        assert(forall|j: int| 0 <= j < base.len() ==> base[j] == s[base_start + j]);
        if dot == n {
            if last_pos(base, '.') >= 0 {
                let q = last_pos(base, '.');
                assert(s[base_start + q] == '.');
            }
            assert(last_pos(base, '.') == -1);
        } else {
            assert(base[dot as int - base_start as int] == '.');
            assert forall|j: int| (dot as int - base_start as int) < j && j < base.len()
                implies base[j] != '.' by {
                assert(base[j] == s[base_start + j]);
            }
            lemma_last_pos_unique(base, '.', dot as int - base_start as int);
        }
        assert(after_last(base, '.') == base.subrange(last_pos(base, '.') + 1, base.len() as int));
    }
    if dot == n || dot == base_start {
        proof {
            if dot == n {
                assert(after_last(base, '.') =~= base);
                assert(ext_of(s) =~= Seq::<char>::empty());
            } else {
                assert(after_last(base, '.').len() == base.len() - 1);
                assert(ext_of(s) =~= Seq::<char>::empty());
            }
        }
        String::new()
    } else {
        let r = String::from_str(path.substring_char(dot + 1, n));
        proof {
            assert(after_last(base, '.') =~= s.subrange(dot as int + 1, n as int));
            assert(after_last(base, '.').len() < base.len() - 1 || base.len() == 0);
            assert(ext_of(s) == after_last(base, '.'));
        }
        r
    }
}

/// The decimal digits of a nonnegative integer.
pub open spec fn dec_of(n: int) -> Seq<char>
    decreases n,
{
    if n < 10 {
        seq![crate::hashid::hex_digit(n)]
    } else {
        dec_of(n / 10).push(crate::hashid::hex_digit(n % 10))
    }
}

/// One decimal digit as a string slice.
fn digit_str(d: u32) -> (r: &'static str)
    requires
        d < 10,
    ensures
        r@ == seq![crate::hashid::hex_digit(d as int)],
{
    proof {
        reveal_strlit("0");
        reveal_strlit("1");
        reveal_strlit("2");
        reveal_strlit("3");
        reveal_strlit("4");
        reveal_strlit("5");
        reveal_strlit("6");
        reveal_strlit("7");
        reveal_strlit("8");
        reveal_strlit("9");
    }
    let r = match d {
        0 => "0",
        1 => "1",
        2 => "2",
        3 => "3",
        4 => "4",
        5 => "5",
        6 => "6",
        7 => "7",
        8 => "8",
        _ => "9",
    };
    proof {
        assert(r@ =~= seq![crate::hashid::hex_digit(d as int)]);
    }
    r
}

/// Format a number in decimal.
pub fn u64_to_dec(n: u64) -> (r: String)
    ensures
        r@ == dec_of(n as int),
    decreases n,
{
    if n < 10 {
        String::from_str(digit_str(n as u32))
    } else {
        let mut s = u64_to_dec(n / 10);
        s.append(digit_str((n % 10) as u32));
        s
    }
}

/// The basename of a path: what follows the last slash.
pub fn basename_of(path: &str) -> (r: String)
    ensures
        r@ == after_last(path@, '/'),
{
    let n = path.unicode_len();
    let ghost s = path@;
    let mut slash: usize = n;
    let mut i: usize = n;
    while i > 0
        invariant
            s == path@,
            i <= n,
            slash <= n,
            n == s.len(),
            slash == n ==> forall|j: int| i <= j < n ==> s[j] != '/',
            slash < n ==> i <= slash && s[slash as int] == '/'
                && (forall|j: int| slash < j < n ==> s[j] != '/'),
        decreases i,
    {
        i = i - 1;
        if path.get_char(i) == '/' {
            if slash == n {
                slash = i;
            }
        }
    }
    proof {
        lemma_last_pos(s, '/');
        if slash == n {
            if last_pos(s, '/') >= 0 {
                assert(s[last_pos(s, '/')] != '/');
            }
        } else {
            lemma_last_pos_unique(s, '/', slash as int);
        }
    }
    if slash == n {
        let r = String::from_str(path);
        proof {
            assert(after_last(s, '/') =~= s);
        }
        r
    } else {
        let r = String::from_str(path.substring_char(slash + 1, n));
        proof {
            assert(after_last(s, '/') =~= s.subrange(slash as int + 1, n as int));
        }
        r
    }
}

/// Join two path pieces with a slash.
pub fn path_join(dir: &str, name: &str) -> (r: String)
    ensures
        r@ == dir@ + "/"@ + name@,
{
    let mut s = String::from_str(dir);
    s.append("/");
    s.append(name);
    s
}

/// The character is a decimal digit.
pub open spec fn is_digit(c: char) -> bool {
    '0' <= c && c <= '9'
}

/// Value of a digit character.
pub open spec fn digit_val(c: char) -> int {
    c as int - '0' as int
}

/// Every character is a decimal digit.
pub open spec fn all_digits(s: Seq<char>) -> bool {
    forall|i: int| 0 <= i < s.len() ==> is_digit(#[trigger] s[i])
}

/// The number a digit string denotes.
pub open spec fn dec_val(s: Seq<char>) -> int
    decreases s.len(),
{
    if s.len() == 0 {
        0
    } else {
        10 * dec_val(s.drop_last()) + digit_val(s.last())
    }
}

pub proof fn lemma_dec_val_nonneg(s: Seq<char>)
    requires
        all_digits(s),
    ensures
        dec_val(s) >= 0,
    decreases s.len(),
{
    if s.len() > 0 {
        assert(all_digits(s.drop_last()));
        lemma_dec_val_nonneg(s.drop_last());
    }
}

/// A digit string denotes at least what any of its prefixes denotes.
pub proof fn lemma_dec_val_prefix(s: Seq<char>, i: int)
    requires
        all_digits(s),
        0 <= i <= s.len(),
    ensures
        dec_val(s) >= dec_val(s.subrange(0, i)),
    decreases s.len() - i,
{
    if i < s.len() {
        lemma_dec_val_prefix(s, i + 1);
        let p = s.subrange(0, i + 1);
        assert(p.drop_last() =~= s.subrange(0, i));
        assert(all_digits(p));
        lemma_dec_val_nonneg(p.drop_last());
        assert(dec_val(p) == 10 * dec_val(s.subrange(0, i)) + digit_val(s[i]));
        assert(dec_val(p) >= dec_val(s.subrange(0, i))) by (nonlinear_arith)
            requires
                dec_val(p) == 10 * dec_val(s.subrange(0, i)) + digit_val(s[i]),
                dec_val(s.subrange(0, i)) >= 0,
                digit_val(s[i]) >= 0;
    } else {
        assert(s.subrange(0, i) =~= s);
    }
}

/// Parse a decimal number.  Succeeds exactly on nonempty all-digit
/// strings whose value fits.
pub fn parse_u64_dec(s: &str) -> (r: Option<u64>)
    ensures
        r is Some <==> s@.len() > 0 && all_digits(s@) && dec_val(s@) <= u64::MAX,
        r matches Some(v) ==> v == dec_val(s@),
{
    let n = s.unicode_len();
    if n == 0 {
        return None;
    }
    let mut acc: u64 = 0;
    let mut i: usize = 0;
    while i < n
        invariant
            0 < n == s@.len(),
            i <= n,
            all_digits(s@.subrange(0, i as int)),
            acc == dec_val(s@.subrange(0, i as int)),
        decreases n - i,
    {
        let c = s.get_char(i);
        let u = c as u32;
        if !(48 <= u && u <= 57) {
            proof {
                assert(!is_digit(s@[i as int]));
            }
            return None;
        }
        let d = (u - 48) as u64;
        proof {
            assert(is_digit(s@[i as int]) && d == digit_val(s@[i as int]));
            assert(s@.subrange(0, i as int + 1).drop_last() =~= s@.subrange(0, i as int));
        }
        if acc > (u64::MAX - d) / 10 {
            proof {
                let p = s@.subrange(0, i as int + 1);
                assert(all_digits(p));
                assert(dec_val(p) == 10 * (acc as int) + d);
                assert(10 * (acc as int) + d > u64::MAX) by (nonlinear_arith)
                    requires
                        acc as int > (u64::MAX as int - d) / 10,
                        0 <= d <= 9;
                if all_digits(s@) {
                    lemma_dec_val_prefix(s@, i as int + 1);
                }
            }
            return None;
        }
        acc = acc * 10 + d;
        i = i + 1;
    }
    proof {
        assert(s@.subrange(0, n as int) =~= s@);
    }
    Some(acc)
}

/// Printing a number and parsing it back returns the number.
pub proof fn lemma_dec_round_trip(n: int)
    requires
        0 <= n,
    ensures
        all_digits(dec_of(n)),
        dec_val(dec_of(n)) == n,
    decreases n,
{
    if n < 10 {
        assert(dec_of(n) =~= seq![crate::hashid::hex_digit(n)]);
        assert(crate::hashid::hex_digit(n) as int - '0' as int == n);
        assert(dec_of(n).drop_last() =~= Seq::<char>::empty());
        assert(dec_val(Seq::<char>::empty()) == 0);
        assert(dec_of(n).last() == crate::hashid::hex_digit(n));
        assert(dec_val(dec_of(n))
            == 10 * dec_val(dec_of(n).drop_last()) + digit_val(dec_of(n).last()));
    } else {
        lemma_dec_round_trip(n / 10);
        assert(dec_of(n) == dec_of(n / 10).push(crate::hashid::hex_digit(n % 10)));
        assert(dec_of(n).drop_last() =~= dec_of(n / 10));
        assert(dec_of(n).last() == crate::hashid::hex_digit(n % 10));
        assert(crate::hashid::hex_digit(n % 10) as int - '0' as int == n % 10);
        assert(forall|i: int| 0 <= i < dec_of(n / 10).len()
            ==> is_digit(#[trigger] dec_of(n / 10)[i]));
        assert(all_digits(dec_of(n)));
        assert(dec_val(dec_of(n)) == 10 * (n / 10) + n % 10);
    }
}

} // verus!
