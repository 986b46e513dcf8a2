//! Small helpers for building and reading strings.
use vstd::prelude::*;

verus! {

/// `String::push`: appends one character.
#[verifier::external_body]
pub fn push_char(s: &mut String, c: char)
    ensures
        final(s)@ == old(s)@.push(c),
{
    s.push(c);
}

/// Appends the characters of `t` to `s`.
pub fn push_str(s: &mut String, t: &str)
    ensures
        final(s)@ == old(s)@ + t@,
{
    s.append(t);
}

/// The characters of `s`, in order.
pub fn chars_of(s: &str) -> (r: Vec<char>)
    ensures
        r@ == s@,
{
    let mut r: Vec<char> = Vec::new();
    for c in it: s.chars()
        invariant
            r@ == it.seq().take(it.index() as int),
            it.seq() == s@,
    {
        r.push(c);
    }
    r
}

/// A `String` holding exactly the characters of `v`.
pub fn string_from_chars(v: &Vec<char>) -> (r: String)
    ensures
        r@ == v@,
{
    let mut r = String::new();
    let n = v.len();
    for i in 0..n
        invariant
            n == v.len(),
            r@ == v@.take(i as int),
    {
        push_char(&mut r, v[i]);
        assert(v@.take(i + 1) == v@.take(i as int).push(v@[i as int]));
    }
    assert(v@.take(n as int) == v@);
    r
}

} // verus!

verus! {

pub open spec fn upper_char(c: char) -> char {
    if 'a' <= c && c <= 'z' {
        ((c as u32) - 32) as char
    } else {
        c
    }
}

/// `s` with ASCII lower case letters turned to upper case, as
/// `str::to_ascii_uppercase` does.
pub open spec fn ascii_upper(s: Seq<char>) -> Seq<char> {
    s.map_values(|c: char| upper_char(c))
}

pub fn to_ascii_uppercase(s: &String) -> (r: String)
    ensures
        r@ == ascii_upper(s@),
{
    let chars = chars_of(s.as_str());
    let mut r = String::new();
    let n = chars.len();
    for i in 0..n
        invariant
            n == chars.len(),
            chars@ == s@,
            r@ == ascii_upper(s@).take(i as int),
    {
        let c = chars[i];
        let u = if 'a' <= c && c <= 'z' {
            ((c as u8) - 32) as char
        } else {
            c
        };
        assert(u == upper_char(s@[i as int])) by {
            if 'a' <= c && c <= 'z' {
                assert((c as u8) as u32 == c as u32);
            }
        }
        push_char(&mut r, u);
        assert(ascii_upper(s@).take(i + 1) =~= ascii_upper(s@).take(i as int).push(u));
    }
    assert(ascii_upper(s@).take(n as int) =~= ascii_upper(s@));
    r
}

/// `s` without its leading whitespace.
pub open spec fn trim_start(s: Seq<char>) -> Seq<char>
    decreases s.len(),
{
    if s.len() > 0 && crate::interpreter::chars::spec_is_whitespace(s[0]) {
        trim_start(s.drop_first())
    } else {
        s
    }
}

/// `s` without its trailing whitespace.
pub open spec fn trim_end(s: Seq<char>) -> Seq<char>
    decreases s.len(),
{
    if s.len() > 0 && crate::interpreter::chars::spec_is_whitespace(s.last()) {
        trim_end(s.drop_last())
    } else {
        s
    }
}

/// `s` without leading and trailing whitespace, as `str::trim` gives it.
pub open spec fn trimmed(s: Seq<char>) -> Seq<char> {
    trim_end(trim_start(s))
}

proof fn lemma_trim_start(s: Seq<char>, k: int)
    requires
        0 <= k <= s.len(),
        forall|i: int| 0 <= i < k ==> crate::interpreter::chars::spec_is_whitespace(#[trigger] s[i]),
        k == s.len() || !crate::interpreter::chars::spec_is_whitespace(s[k]),
    ensures
        trim_start(s) == s.skip(k),
    decreases k,
{
    if k > 0 {
        let t = s.drop_first();
        assert forall|i: int| 0 <= i < k - 1 implies crate::interpreter::chars::spec_is_whitespace(
            #[trigger] t[i],
        ) by {
            assert(t[i] == s[i + 1]);
        }
        if k - 1 < t.len() {
            assert(t[k - 1] == s[k]);
        }
        lemma_trim_start(t, k - 1);
        assert(t.skip(k - 1) =~= s.skip(k));
    } else {
        assert(s.skip(0) =~= s);
    }
}

proof fn lemma_trim_end(s: Seq<char>, k: int)
    requires
        0 <= k <= s.len(),
        forall|i: int| k <= i < s.len() ==> crate::interpreter::chars::spec_is_whitespace(#[trigger] s[i]),
        k == 0 || !crate::interpreter::chars::spec_is_whitespace(s[k - 1]),
    ensures
        trim_end(s) == s.take(k),
    decreases s.len() - k,
{
    if k < s.len() {
        let t = s.drop_last();
        assert forall|i: int| k <= i < t.len() implies crate::interpreter::chars::spec_is_whitespace(
            #[trigger] t[i],
        ) by {
            assert(t[i] == s[i]);
        }
        if k > 0 {
            assert(t[k - 1] == s[k - 1]);
        }
        assert(crate::interpreter::chars::spec_is_whitespace(s[s.len() - 1]));
        lemma_trim_end(t, k);
        assert(t.take(k) =~= s.take(k));
    } else {
        assert(s.take(k) =~= s);
    }
}

/// `s` without leading and trailing whitespace.
pub fn trim(s: &str) -> (r: String)
    ensures
        r@ == trimmed(s@),
{
    let chars = chars_of(s);
    let n = chars.len();
    let mut a: usize = 0;
    while a < n && crate::interpreter::chars::is_whitespace(chars[a])
        invariant
            a <= n,
            n == chars.len(),
            chars@ == s@,
            forall|i: int| 0 <= i < a ==> crate::interpreter::chars::spec_is_whitespace(#[trigger] chars@[i]),
        decreases n - a,
    {
        a = a + 1;
    }
    proof {
        lemma_trim_start(s@, a as int);
    }
    let ghost t = s@.skip(a as int);
    let mut b: usize = n;
    while b > a && crate::interpreter::chars::is_whitespace(chars[b - 1])
        invariant
            a <= b <= n,
            n == chars.len(),
            chars@ == s@,
            t == s@.skip(a as int),
            forall|i: int| b <= i < n ==> crate::interpreter::chars::spec_is_whitespace(#[trigger] chars@[i]),
        decreases b,
    {
        b = b - 1;
    }
    proof {
        let k = (b - a) as int;
        assert forall|i: int| k <= i < t.len() implies crate::interpreter::chars::spec_is_whitespace(
            #[trigger] t[i],
        ) by {
            assert(t[i] == chars@[i + a]);
        }
        if k > 0 {
            assert(t[k - 1] == chars@[b - 1]);
        }
        lemma_trim_end(t, k);
    }
    let mut r = String::new();
    for i in a..b
        invariant
            chars@ == s@,
            b <= n,
            n == chars.len(),
            r@ == s@.subrange(a as int, i as int),
    {
        push_char(&mut r, chars[i]);
        assert(s@.subrange(a as int, i + 1) =~= s@.subrange(a as int, i as int).push(chars@[i as int]));
    }
    assert(t.take((b - a) as int) =~= s@.subrange(a as int, b as int));
    r
}

} // verus!
