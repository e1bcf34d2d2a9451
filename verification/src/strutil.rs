//! Small string-building helpers shared by the reporter and the engine:
//! appending a single character, comparing string slices, and rendering a
//! number in decimal.

use vstd::prelude::*;

verus! {

/// Relies on `String::push`: appends exactly the given character to the end
/// of the string.
#[verifier::external_body]
pub fn push_char(s: &mut String, c: char)
    ensures
        final(s)@ == old(s)@.push(c),
{
    s.push(c)
}

/// Character-wise equality of two string slices.
pub fn str_eq(a: &str, b: &str) -> (r: bool)
    ensures
        r == (a@ == b@),
{
    let sa: String = a.to_owned();
    let sb: String = b.to_owned();
    sa == sb
}

/// The decimal digit character for `d` (meaningful for `d < 10`).
pub open spec fn spec_digit_char(d: nat) -> char {
    ((48 + d) as u8) as char
}

/// The decimal rendering of `n`, most significant digit first.
pub open spec fn spec_dec(n: nat) -> Seq<char>
    decreases n,
{
    if n < 10 {
        seq![spec_digit_char(n)]
    } else {
        spec_dec(n / 10).push(spec_digit_char(n % 10))
    }
}

fn digit_char(d: u8) -> (c: char)
    requires
        d < 10,
    ensures
        c == spec_digit_char(d as nat),
{
    (48 + d) as char
}

/// Renders `n` in decimal, most significant digit first.
pub fn u64_string(n: u64) -> (s: String)
    ensures
        s@ == spec_dec(n as nat),
    decreases n,
{
    if n < 10 {
        let mut s = String::new();
        push_char(&mut s, digit_char(n as u8));
        assert(s@ =~= spec_dec(n as nat));
        s
    } else {
        let mut s = u64_string(n / 10);
        push_char(&mut s, digit_char((n % 10) as u8));
        assert(s@ =~= spec_dec(n as nat));
        s
    }
}

/// Index of the first `c` in `s`, or `s.len()` when there is none.
pub open spec fn first_in(s: Seq<char>, c: char) -> nat
    decreases s.len(),
{
    if s.len() == 0 {
        0
    } else if s[0] == c {
        0
    } else {
        1 + first_in(s.drop_first(), c)
    }
}

proof fn lemma_first_in_at(s: Seq<char>, c: char, k: int)
    requires
        0 <= k <= s.len(),
        k < s.len() ==> s[k] == c,
        forall|j: int| 0 <= j < k ==> s[j] != c,
        k == s.len() ==> forall|j: int| 0 <= j < s.len() ==> s[j] != c,
    ensures
        first_in(s, c) == k,
    decreases k,
{
    if k > 0 {
        assert(forall|j: int|
            0 <= j < k - 1 ==> s.drop_first()[j] == s[j + 1] && s[j + 1] != c);
        if k == s.len() {
            assert(forall|j: int|
                0 <= j < s.drop_first().len() ==> s.drop_first()[j] == s[j + 1] && s[j + 1] != c);
        }
        lemma_first_in_at(s.drop_first(), c, k - 1);
    }
}

/// One `KEY=VALUE` override split apart: the key is everything before the
/// first `=`, the value everything between the first and the second (or the
/// end, where there is no second).
pub fn parse_env(v: &String) -> (r: (String, String))
    requires
        exists|k: int| 0 <= k < v@.len() && v@[k] == '=',
    ensures
        r.0@ == v@.take(first_in(v@, '=') as int),
        r.1@ == ({
            let rest = v@.skip(first_in(v@, '=') + 1int);
            rest.take(first_in(rest, '=') as int)
        }),
{
    let s = v.as_str();
    let n = s.unicode_len();
    let mut i: usize = 0;
    while i < n && s.get_char(i) != '='
        invariant
            i <= n,
            n == s@.len(),
            forall|j: int| 0 <= j < i ==> s@[j] != '=',
        decreases n - i,
    {
        i = i + 1;
    }
    proof {
        let k = choose|k: int| 0 <= k < v@.len() && v@[k] == '=';
        assert(i < n);
        lemma_first_in_at(s@, '=', i as int);
    }
    let key = s.substring_char(0, i).to_owned();
    let mut j: usize = i + 1;
    while j < n && s.get_char(j) != '='
        invariant
            i < j <= n || j == i + 1,
            i + 1 <= j <= n,
            n == s@.len(),
            forall|k: int| i + 1 <= k < j ==> s@[k] != '=',
        decreases n - j,
    {
        j = j + 1;
    }
    let value = s.substring_char(i + 1, j).to_owned();
    proof {
        let rest = s@.skip(i + 1);
        assert(forall|k: int|
            0 <= k < j - i - 1 ==> rest[k] == s@[k + i + 1] && s@[k + i + 1] != '=');
        if j < n {
            assert(rest[j - i - 1] == s@[j as int]);
        } else {
            assert(forall|k: int| 0 <= k < rest.len() ==> rest[k] == s@[k + i + 1]);
        }
        lemma_first_in_at(rest, '=', j - i - 1);
        assert(value@ =~= rest.take(j - i - 1));
    }
    (key, value)
}

/// The decimal rendering of a signed value: a minus sign, then the digits.
pub open spec fn spec_dec_signed(n: int) -> Seq<char> {
    if n >= 0 {
        spec_dec(n as nat)
    } else {
        "-"@ + spec_dec((-n) as nat)
    }
}

/// Renders `n` in decimal, with a minus sign when negative.
pub fn i64_string(n: i64) -> (s: String)
    ensures
        s@ == spec_dec_signed(n as int),
{
    if n >= 0 {
        u64_string(n as u64)
    } else {
        let mag: u64 = if n == i64::MIN {
            9223372036854775808u64
        } else {
            (-n) as u64
        };
        let mut s: String = "-".to_owned();
        let digits = u64_string(mag);
        s.append(digits.as_str());
        proof {
            assert(mag as nat == (-(n as int)) as nat);
        }
        s
    }
}

} // verus!
