//! Small string helpers shared by the filesystem, the credential store and
//! the shell: equality on string slices, and character-level editing of the
//! line buffers.

use vstd::prelude::*;

verus! {

use vstd::std_specs::iter::IteratorSpec;

broadcast use {
    vstd::std_specs::vec::group_vec_axioms,
    vstd::seq::group_seq_axioms,
    vstd::string::group_string_axioms,
};

/// Relies on `String::push`: appends exactly the given character.
pub assume_specification[ String::push ](s: &mut String, c: char)
    ensures
        final(s)@ == old(s)@.push(c),
;

/// Relies on `String::pop`: removes and returns the last character, if any.
pub assume_specification[ String::pop ](s: &mut String) -> (r: Option<char>)
    ensures
        old(s)@.len() == 0 ==> r is None && final(s)@ == old(s)@,
        old(s)@.len() > 0 ==> r == Some(old(s)@.last()) && final(s)@ == old(s)@.drop_last(),
;

/// Equality of two string slices, as equality of their character sequences.
pub fn str_eq(a: &str, b: &str) -> (r: bool)
    ensures
        r == (a@ == b@),
{
    let sa: String = a.to_owned();
    let sb: String = b.to_owned();
    sa == sb
}

/// The characters of a string slice, as a vector.
pub fn chars_vec(s: &str) -> (r: Vec<char>)
    ensures
        r@ == s@,
{
    let mut it = s.chars();
    let mut v: Vec<char> = Vec::new();
    loop
        invariant
            it.obeys_prophetic_iter_laws(),
            IteratorSpec::decrease(&it) is Some,
            v@ + vstd::std_specs::iter::IteratorSpec::remaining(&it) == s@,
        decreases IteratorSpec::decrease(&it)->0,
    {
        let ghost rem0 = vstd::std_specs::iter::IteratorSpec::remaining(&it);
        match it.next() {
            Some(c) => {
                v.push(c);
                proof {
                    assert(v@ + vstd::std_specs::iter::IteratorSpec::remaining(&it) =~= v@
                        .drop_last() + rem0);
                }
            },
            None => {
                proof {
                    assert(v@ =~= v@ + vstd::std_specs::iter::IteratorSpec::remaining(&it));
                }
                return v;
            },
        }
    }
}

/// A string holding the characters `v[a..b]`.
pub fn string_of_range(v: &Vec<char>, a: usize, b: usize) -> (r: String)
    requires
        a <= b <= v@.len(),
    ensures
        r@ == v@.subrange(a as int, b as int),
{
    let mut r = String::new();
    let mut k: usize = a;
    while k < b
        invariant
            a <= k <= b <= v@.len(),
            r@ == v@.subrange(a as int, k as int),
        decreases b - k,
    {
        r.push(v[k]);
        proof {
            assert(v@.subrange(a as int, k + 1) =~= v@.subrange(a as int, k as int).push(
                v@[k as int],
            ));
        }
        k += 1;
    }
    r
}

/// The string without its leading spaces.
pub open spec fn trim_front(s: Seq<char>) -> Seq<char>
    decreases s.len(),
{
    if s.len() > 0 && s.first() == ' ' {
        trim_front(s.drop_first())
    } else {
        s
    }
}

/// The string without its trailing spaces.
pub open spec fn trim_back(s: Seq<char>) -> Seq<char>
    decreases s.len(),
{
    if s.len() > 0 && s.last() == ' ' {
        trim_back(s.drop_last())
    } else {
        s
    }
}

/// The string without leading and trailing spaces.
pub open spec fn trim_spec(s: Seq<char>) -> Seq<char> {
    trim_back(trim_front(s))
}

/// `trim_front` drops exactly the leading spaces.
proof fn lemma_trim_front(s: Seq<char>, a: int)
    requires
        0 <= a <= s.len(),
        forall|k: int| 0 <= k < a ==> s[k] == ' ',
        a == s.len() || s[a] != ' ',
    ensures
        trim_front(s) == s.skip(a),
    decreases s.len(),
{
    if s.len() > 0 && s.first() == ' ' {
        assert(a > 0);
        assert forall|k: int| 0 <= k < a - 1 implies s.drop_first()[k] == ' ' by {
            assert(s.drop_first()[k] == s[k + 1]);
        }
        lemma_trim_front(s.drop_first(), a - 1);
        assert(s.drop_first().skip(a - 1) =~= s.skip(a));
    } else {
        assert(a == 0);
        assert(s.skip(0) =~= s);
    }
}

/// `trim_back` drops exactly the trailing spaces.
proof fn lemma_trim_back(s: Seq<char>, b: int)
    requires
        0 <= b <= s.len(),
        forall|k: int| b <= k < s.len() ==> s[k] == ' ',
        b == 0 || s[b - 1] != ' ',
    ensures
        trim_back(s) == s.take(b),
    decreases s.len(),
{
    if s.len() > 0 && s.last() == ' ' {
        assert(b < s.len());
        lemma_trim_back(s.drop_last(), b);
        assert(s.drop_last().take(b) =~= s.take(b));
    } else {
        assert(b == s.len());
        assert(s.take(b) =~= s);
    }
}

/// The string slice without leading and trailing spaces.
pub fn trim(s: &str) -> (r: String)
    ensures
        r@ == trim_spec(s@),
{
    let v = chars_vec(s);
    let n = v.len();
    let mut a: usize = 0;
    while a < n && v[a] == ' '
        invariant
            n == v@.len(),
            a <= n,
            forall|k: int| 0 <= k < a ==> v@[k] == ' ',
        decreases n - a,
    {
        a += 1;
    }
    proof {
        lemma_trim_front(s@, a as int);
    }
    if a == n {
        proof {
            assert(s@.skip(a as int) =~= Seq::<char>::empty());
        }
        return String::new();
    }
    let mut b: usize = n;
    while b > a && v[b - 1] == ' '
        invariant
            n == v@.len(),
            a <= b <= n,
            forall|k: int| b <= k < n ==> v@[k] == ' ',
        decreases b,
    {
        b -= 1;
    }
    proof {
        let t = s@.skip(a as int);
        assert forall|k: int| b - a <= k < t.len() implies t[k] == ' ' by {
            assert(t[k] == s@[k + a]);
        }
        if b > a {
            assert(t[b - a - 1] == s@[b as int - 1]);
        }
        lemma_trim_back(t, b - a);
        assert(t.take(b - a) =~= s@.subrange(a as int, b as int));
    }
    string_of_range(&v, a, b)
}

/// Index of the first space, or -1 if there is none.
pub open spec fn space_i(s: Seq<char>) -> int
    decreases s.len(),
{
    if s.len() == 0 {
        -1
    } else if s.first() == ' ' {
        0
    } else {
        let r = space_i(s.drop_first());
        if r < 0 {
            -1
        } else {
            r + 1
        }
    }
}

/// The word before the first space (the whole string if there is none).
pub open spec fn split_head(s: Seq<char>) -> Seq<char> {
    if space_i(s) >= 0 {
        s.take(space_i(s))
    } else {
        s
    }
}

/// What follows the first space (empty if there is none).
pub open spec fn split_rest(s: Seq<char>) -> Seq<char> {
    if space_i(s) >= 0 {
        s.skip(space_i(s) + 1)
    } else {
        Seq::empty()
    }
}

/// `space_i` finds the first space.
proof fn lemma_space_i_first(s: Seq<char>, j: int)
    requires
        0 <= j < s.len(),
        s[j] == ' ',
        forall|k: int| 0 <= k < j ==> s[k] != ' ',
    ensures
        space_i(s) == j,
    decreases s.len(),
{
    if j > 0 {
        assert forall|k: int| 0 <= k < j - 1 implies s.drop_first()[k] != ' ' by {
            assert(s.drop_first()[k] == s[k + 1]);
        }
        assert(s.drop_first()[j - 1] == s[j]);
        lemma_space_i_first(s.drop_first(), j - 1);
    }
}

/// With no space anywhere, `space_i` reports -1.
proof fn lemma_space_i_none(s: Seq<char>)
    requires
        forall|k: int| 0 <= k < s.len() ==> s[k] != ' ',
    ensures
        space_i(s) == -1,
    decreases s.len(),
{
    if s.len() > 0 {
        assert forall|k: int| 0 <= k < s.drop_first().len() implies s.drop_first()[k] != ' ' by {
            assert(s.drop_first()[k] == s[k + 1]);
        }
        lemma_space_i_none(s.drop_first());
    }
}

/// Splits at the first space: the word before it, and everything after it.
pub fn split_first_space(s: &str) -> (r: (String, String))
    ensures
        r.0@ == split_head(s@),
        r.1@ == split_rest(s@),
{
    let v = chars_vec(s);
    let n = v.len();
    let mut k: usize = 0;
    while k < n && v[k] != ' '
        invariant
            n == v@.len(),
            k <= n,
            forall|q: int| 0 <= q < k ==> v@[q] != ' ',
        decreases n - k,
    {
        k += 1;
    }
    if k == n {
        proof {
            lemma_space_i_none(s@);
        }
        (string_of_range(&v, 0, n), String::new())
    } else {
        proof {
            lemma_space_i_first(s@, k as int);
            assert(s@.take(k as int) =~= s@.subrange(0, k as int));
            assert(s@.skip(k + 1) =~= s@.subrange(k + 1, n as int));
        }
        (string_of_range(&v, 0, k), string_of_range(&v, k + 1, n))
    }
}

/// The decimal digit as a character.
pub open spec fn dec_digit(d: nat) -> char {
    if d == 0 {
        '0'
    } else if d == 1 {
        '1'
    } else if d == 2 {
        '2'
    } else if d == 3 {
        '3'
    } else if d == 4 {
        '4'
    } else if d == 5 {
        '5'
    } else if d == 6 {
        '6'
    } else if d == 7 {
        '7'
    } else if d == 8 {
        '8'
    } else {
        '9'
    }
}

/// The decimal digits of `n`, most significant first.
pub open spec fn dec_str(n: nat) -> Seq<char>
    decreases n,
{
    if n < 10 {
        seq![dec_digit(n)]
    } else {
        dec_str(n / 10).push(dec_digit(n % 10))
    }
}

/// The decimal rendering of a number.
pub fn u64_to_string(n: u64) -> (r: String)
    ensures
        r@ == dec_str(n as nat),
{
    let mut ds: Vec<char> = Vec::new();
    let mut m = n;
    if m < 10 {
        ds.push(digit_char(m));
    } else {
        proof {
            assert(dec_str(n as nat) + ds@ =~= dec_str(n as nat));
        }
        while m >= 10
            invariant
                m > 0,
                dec_str(n as nat) == dec_str(m as nat) + ds@,
            decreases m,
        {
            let d = m % 10;
            m = m / 10;
            ds.insert(0, digit_char(d));
            proof {
                assert(dec_str((m * 10 + d) as nat) + ds@.drop_first() =~= dec_str(m as nat)
                    + ds@);
            }
        }
        proof {
            assert(dec_str(m as nat) + ds@ =~= seq![dec_digit(m as nat)] + ds@);
        }
        ds.insert(0, digit_char(m));
    }
    proof {
        assert(ds@ =~= dec_str(n as nat));
    }
    let mut r = String::new();
    let mut k: usize = 0;
    let len = ds.len();
    while k < len
        invariant
            len == ds@.len(),
            k <= len,
            r@ == ds@.take(k as int),
        decreases len - k,
    {
        r.push(ds[k]);
        proof {
            assert(ds@.take(k + 1) =~= ds@.take(k as int).push(ds@[k as int]));
        }
        k += 1;
    }
    proof {
        assert(ds@.take(len as int) =~= ds@);
    }
    r
}

/// The decimal rendering of a 32-bit number.
pub fn u32_to_string(n: u32) -> (r: String)
    ensures
        r@ == dec_str(n as nat),
{
    u64_to_string(n as u64)
}

/// Exactly two decimal digits: tens and ones (higher digits dropped).
pub fn two_digits(n: u8) -> (r: String)
    ensures
        r@ == seq![dec_digit(((n / 10) % 10) as nat), dec_digit((n % 10) as nat)],
{
    let mut r = String::new();
    r.push(digit_char(((n / 10) % 10) as u64));
    r.push(digit_char((n % 10) as u64));
    proof {
        assert(r@ =~= seq![dec_digit(((n / 10) % 10) as nat), dec_digit((n % 10) as nat)]);
    }
    r
}

/// The character of one decimal digit.
fn digit_char(d: u64) -> (r: char)
    requires
        d < 10,
    ensures
        r == dec_digit(d as nat),
{
    match d {
        0 => '0',
        1 => '1',
        2 => '2',
        3 => '3',
        4 => '4',
        5 => '5',
        6 => '6',
        7 => '7',
        8 => '8',
        _ => '9',
    }
}

} // verus!
