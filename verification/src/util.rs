use vstd::prelude::*;
use rand::Rng;

use crate::text::{
    all_digits, chars_of, digit_prefix, is_ascii_digit, push_char, string_of,
};

verus! {

/// The leading digits of `s` (`take_while(is_ascii_digit)`).
pub fn parse_some_num(s: String) -> (num: String)
    ensures
        num@ == digit_prefix(s@),
{
    let chars = chars_of(s.as_str());
    let mut i: usize = 0;
    while i < chars.len() && chars[i] >= '0' && chars[i] <= '9'
        invariant
            i <= chars.len(),
            all_digits(chars@.take(i as int)),
        decreases chars.len() - i,
    {
        assert(chars@.take(i + 1) =~= chars@.take(i as int).push(chars@[i as int]));
        i = i + 1;
    }
    proof {
        lemma_digit_prefix(chars@, i as int);
    }
    let mut num = String::new();
    for j in 0..i
        invariant
            i <= chars.len(),
            num@ == chars@.take(j as int),
    {
        push_char(&mut num, chars[j]);
        assert(chars@.take(j + 1) =~= chars@.take(j as int).push(chars@[j as int]));
    }
    num
}

/// The digit prefix of `s` is `s.take(k)` when the first `k` characters are
/// digits and the next one, if any, is not.
pub proof fn lemma_digit_prefix(s: Seq<char>, k: int)
    requires
        0 <= k <= s.len(),
        all_digits(s.take(k)),
        k == s.len() || !is_ascii_digit(s[k]),
    ensures
        digit_prefix(s) == s.take(k),
    decreases k,
{
    if k == 0 {
        assert(s.take(0) =~= Seq::<char>::empty());
    } else {
        assert(is_ascii_digit(s.take(k)[0]));
        let t = s.drop_first();
        assert(t.take(k - 1) =~= s.take(k).drop_first());
        assert forall|i: int| 0 <= i < k - 1 implies is_ascii_digit(#[trigger] t.take(k - 1)[i]) by {
            assert(t.take(k - 1)[i] == s.take(k)[i + 1]);
        }
        if k < s.len() {
            assert(t[k - 1] == s[k]);
        }
        lemma_digit_prefix(t, k - 1);
        assert(s.take(k) =~= seq![s[0]] + t.take(k - 1));
    }
}

/// The hiss written with `n` extra `s` after `"his"`, in capitals when `caps`.
pub open spec fn hiss_spec(n: int, caps: bool) -> Seq<char> {
    if caps {
        seq!['H', 'I', 'S'] + Seq::new(n as nat, |i: int| 'S')
    } else {
        seq!['h', 'i', 's'] + Seq::new(n as nat, |i: int| 's')
    }
}

/// `rand::Rng::gen_range(low..high)` on the thread-local generator: a value
/// in `low..high`; which one is left to chance.
#[verifier::external_body]
fn random_in(low: u32, high: u32) -> (r: u32)
    requires
        low < high,
    ensures
        low <= r < high,
{
    rand::thread_rng().gen_range(low..high)
}

/// The ASCII capital of `c`, and `c` itself when it is no ASCII lowercase letter.
pub open spec fn ascii_upper(c: char) -> char {
    if 'a' <= c && c <= 'z' {
        ((c as int) - 32) as char
    } else {
        c
    }
}

/// The hiss for the drawn numbers: `"his"` and `num_s` more `s`, all in
/// capitals when `chance_caps >= 6`.
pub fn hiss_text_with(num_s: u32, chance_caps: u32) -> (s: String)
    ensures
        s@ == hiss_spec(num_s as int, chance_caps >= 6),
{
    let mut chars: Vec<char> = Vec::new();
    chars.push('h');
    chars.push('i');
    chars.push('s');
    for k in 0..num_s
        invariant
            chars@ == seq!['h', 'i', 's'] + Seq::new(k as nat, |i: int| 's'),
    {
        chars.push('s');
        assert(chars@ =~= seq!['h', 'i', 's'] + Seq::new((k + 1) as nat, |i: int| 's'));
    }
    if chance_caps >= 6 {
        let ghost lower = chars@;
        let mut i: usize = 0;
        while i < chars.len()
            invariant
                chars@.len() == lower.len(),
                i <= chars.len(),
                forall|j: int| 0 <= j < i ==> chars@[j] == ascii_upper(lower[j]),
                forall|j: int| i <= j < chars.len() ==> chars@[j] == lower[j],
            decreases chars.len() - i,
        {
            let c = chars[i];
            if c >= 'a' && c <= 'z' {
                let up: char = ((c as u8) - 32) as char;
                chars.set(i, up);
            }
            i = i + 1;
        }
        assert(chars@ =~= hiss_spec(num_s as int, true));
    }
    string_of(&chars)
}

/// A hiss of random length and case: between one and seven extra `s`, and in
/// capitals on five draws out of eleven.
pub fn hiss_text() -> (s: String)
    ensures
        exists|n: int, caps: bool| 1 <= n < 8 && s@ == hiss_spec(n, caps),
{
    let num_s: u32 = random_in(1, 8);
    let chance_caps: u32 = random_in(0, 11);
    let s = hiss_text_with(num_s, chance_caps);
    assert(s@ == hiss_spec(num_s as int, chance_caps >= 6));
    s
}

/// `parse_some_num` keeps a prefix of its input made of digits only, and
/// applying it again changes nothing.
pub proof fn lemma_parse_some_num_idempotent(s: Seq<char>)
    ensures
        digit_prefix(digit_prefix(s)) == digit_prefix(s),
        all_digits(digit_prefix(s)),
        digit_prefix(s).len() <= s.len(),
        s.take(digit_prefix(s).len() as int) == digit_prefix(s),
    decreases s.len(),
{
    crate::text::lemma_digit_prefix_all_digits(s);
    if s.len() > 0 && is_ascii_digit(s[0]) {
        let t = s.drop_first();
        lemma_parse_some_num_idempotent(t);
        let d = digit_prefix(s);
        assert(d[0] == s[0]);
        assert(d.drop_first() =~= digit_prefix(t));
        assert(s.take(d.len() as int) =~= seq![s[0]] + t.take(digit_prefix(t).len() as int));
    } else {
        assert(s.take(0) =~= Seq::<char>::empty());
    }
}

/// Every hiss has between one and seven extra `s` after `"his"` (four to ten
/// letters in all), and is written either all in small letters or all in
/// capitals.
pub proof fn lemma_hiss_shape(n: int, caps: bool)
    requires
        1 <= n < 8,
    ensures
        4 <= hiss_spec(n, caps).len() <= 10,
        caps ==> hiss_spec(n, caps).take(3) == seq!['H', 'I', 'S'],
        !caps ==> hiss_spec(n, caps).take(3) == seq!['h', 'i', 's'],
        forall|i: int|
            3 <= i < hiss_spec(n, caps).len() ==> #[trigger] hiss_spec(n, caps)[i] == (if caps {
                'S'
            } else {
                's'
            }),
{
    let h = hiss_spec(n, caps);
    assert(h.take(3) =~= (if caps { seq!['H', 'I', 'S'] } else { seq!['h', 'i', 's'] }));
}

} // verus!
