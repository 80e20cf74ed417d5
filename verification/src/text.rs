use vstd::prelude::*;

verus! {

// ---------------------------------------------------------------------------
// Specifications over character sequences
// ---------------------------------------------------------------------------

/// An ASCII decimal digit, `'0'..='9'`.
pub open spec fn is_ascii_digit(c: char) -> bool {
    '0' <= c && c <= '9'
}

/// Every character of `s` is an ASCII decimal digit.
pub open spec fn all_digits(s: Seq<char>) -> bool {
    forall|i: int| 0 <= i < s.len() ==> is_ascii_digit(#[trigger] s[i])
}

/// `needle` stands in `hay` starting at position `i`.
pub open spec fn occurs_at(hay: Seq<char>, needle: Seq<char>, i: int) -> bool {
    &&& 0 <= i
    &&& i + needle.len() <= hay.len()
    &&& hay.subrange(i, i + needle.len()) == needle
}

/// `needle` is a contiguous part of `hay` (the empty text is part of every text).
pub open spec fn contains_text(hay: Seq<char>, needle: Seq<char>) -> bool {
    exists|i: int| occurs_at(hay, needle, i)
}

/// The pieces of `s` between its spaces, as `str::split(" ")` yields them:
/// every space ends a piece, so two spaces in a row give an empty piece, and
/// the empty text gives one empty piece.
pub open spec fn split_spaces(s: Seq<char>) -> Seq<Seq<char>>
    decreases s.len(),
{
    if s.len() == 0 {
        seq![Seq::<char>::empty()]
    } else {
        let init = split_spaces(s.drop_last());
        if s.last() == ' ' {
            init.push(Seq::<char>::empty())
        } else {
            init.update(init.len() - 1, init.last().push(s.last()))
        }
    }
}

/// The longest prefix of `s` made of ASCII digits.
pub open spec fn digit_prefix(s: Seq<char>) -> Seq<char>
    decreases s.len(),
{
    if s.len() == 0 || !is_ascii_digit(s[0]) {
        Seq::<char>::empty()
    } else {
        seq![s[0]] + digit_prefix(s.drop_first())
    }
}

/// The number that a string of decimal digits denotes.
pub open spec fn digits_value(s: Seq<char>) -> int
    decreases s.len(),
{
    if s.len() == 0 {
        0
    } else {
        digits_value(s.drop_last()) * 10 + (s.last() as int - '0' as int)
    }
}

/// The value of a non-negative decimal literal with an optional leading `+`,
/// as Rust's integer parsing accepts it; `None` for any other text.
pub open spec fn unsigned_literal(s: Seq<char>) -> Option<int> {
    let digits = if s.len() > 0 && s[0] == '+' { s.drop_first() } else { s };
    if digits.len() > 0 && all_digits(digits) {
        Some(digits_value(digits))
    } else {
        None
    }
}

/// The value of a decimal literal with an optional leading `+` or `-`, as
/// Rust's signed integer parsing accepts it; `None` for any other text.
pub open spec fn signed_literal(s: Seq<char>) -> Option<int> {
    if s.len() > 0 && s[0] == '-' {
        let digits = s.drop_first();
        if digits.len() > 0 && all_digits(digits) {
            Some(-digits_value(digits))
        } else {
            None
        }
    } else {
        unsigned_literal(s)
    }
}

/// The character of the decimal digit `d` (`0 <= d < 10`).
pub open spec fn digit_char(d: int) -> char {
    (d + '0' as int) as char
}

/// The decimal digits of `n`, without leading zeros (`"0"` for zero).
pub open spec fn nat_digits(n: nat) -> Seq<char>
    decreases n,
{
    if n < 10 {
        seq![digit_char(n as int)]
    } else {
        nat_digits(n / 10).push(digit_char((n % 10) as int))
    }
}

/// `n` written in decimal, as Rust's `Display` writes an integer.
pub open spec fn decimal(n: int) -> Seq<char> {
    if n < 0 {
        seq!['-'] + nat_digits((-n) as nat)
    } else {
        nat_digits(n as nat)
    }
}

// ---------------------------------------------------------------------------
// Calls into std that vstd leaves without a specification
// ---------------------------------------------------------------------------

/// Names the text that `str::to_lowercase` gives back for `s`.
pub uninterp spec fn lowercase_of(s: Seq<char>) -> Seq<char>;

/// Every character of `s` is ASCII (code point below 128).
pub open spec fn is_ascii_text(s: Seq<char>) -> bool {
    forall|i: int| 0 <= i < s.len() ==> (#[trigger] s[i] as int) < 128
}

/// The ASCII lowercase of `c`: `'A'..='Z'` become `'a'..='z'`, every other
/// character stays.
pub open spec fn ascii_lower(c: char) -> char {
    if 'A' <= c && c <= 'Z' {
        ((c as int) + 32) as char
    } else {
        c
    }
}

/// Every character of `s` in ASCII lowercase.
pub open spec fn ascii_lowercase(s: Seq<char>) -> Seq<char> {
    s.map_values(|c: char| ascii_lower(c))
}

/// `str::to_lowercase`: the result is the named lowercase form of the
/// argument. Of that form the contract states only what the documentation
/// of `str::to_ascii_lowercase` says of ASCII text (`to_lowercase` lowers
/// ASCII characters as it does); what Unicode's lowercase mapping does to
/// other characters is left unsaid.
#[verifier::external_body]
pub(crate) fn to_lowercase(s: &str) -> (r: String)
    ensures
        r@ == lowercase_of(s@),
        is_ascii_text(s@) ==> r@ == ascii_lowercase(s@),
{
    s.to_lowercase()
}

/// `String::push`: appends one character.
#[verifier::external_body]
pub(crate) fn push_char(s: &mut String, c: char)
    ensures
        final(s)@ == old(s)@.push(c),
{
    s.push(c)
}

/// Names the text of the error that `str::parse::<u16>` reports for `s`
/// when `s` is no `u16` literal.
pub uninterp spec fn u16_parse_error(s: Seq<char>) -> Seq<char>;

/// `str::parse::<u16>`, with its error turned into its `Display` text.
/// As `u16::from_str_radix` documents it, the parse succeeds exactly on an
/// optional `+` followed by ASCII digits whose value fits in a `u16`, and
/// gives that value; the error's text is only named.
#[verifier::external_body]
pub(crate) fn parse_u16(s: &str) -> (r: Result<u16, String>)
    ensures
        r is Ok <==> (unsigned_literal(s@) matches Some(v) && v <= u16::MAX),
        r matches Ok(n) ==> unsigned_literal(s@) == Some(n as int),
        r matches Err(e) ==> e@ == u16_parse_error(s@),
{
    match s.parse::<u16>() {
        Ok(n) => Ok(n),
        Err(e) => Err(e.to_string()),
    }
}

// ---------------------------------------------------------------------------
// Verified text functions
// ---------------------------------------------------------------------------

/// The characters of `s`, in order.
pub fn chars_of(s: &str) -> (v: Vec<char>)
    ensures
        v@ == s@,
{
    let mut v: Vec<char> = Vec::new();
    for c in it: s.chars()
        invariant
            v@ == it.seq().take(it.index() as int),
    {
        v.push(c);
    }
    v
}

/// A string made of the characters of `v`.
pub fn string_of(v: &Vec<char>) -> (s: String)
    ensures
        s@ == v@,
{
    let mut s = String::new();
    for i in 0..v.len()
        invariant
            s@ == v@.take(i as int),
    {
        push_char(&mut s, v[i]);
        assert(v@.take(i as int).push(v@[i as int]) =~= v@.take(i + 1));
    }
    assert(v@.take(v.len() as int) =~= v@);
    s
}

/// Whether `needle` stands in `hay` at position `i`.
fn occurs_at_exec(hay: &Vec<char>, needle: &Vec<char>, i: usize) -> (r: bool)
    requires
        i + needle.len() <= hay.len(),
    ensures
        r == occurs_at(hay@, needle@, i as int),
{
    let mut j: usize = 0;
    while j < needle.len()
        invariant
            j <= needle.len(),
            i + needle.len() <= hay.len(),
            forall|k: int| 0 <= k < j ==> hay@[i + k] == needle@[k],
        decreases needle.len() - j,
    {
        if hay[i + j] != needle[j] {
            assert(hay@.subrange(i as int, i + needle.len())[j as int] != needle@[j as int]);
            return false;
        }
        j = j + 1;
    }
    assert(hay@.subrange(i as int, i + needle.len()) =~= needle@);
    true
}

/// Whether `needle` is a contiguous part of `hay`.
pub fn contains_chars(hay: &Vec<char>, needle: &Vec<char>) -> (r: bool)
    ensures
        r == contains_text(hay@, needle@),
{
    if needle.len() > hay.len() {
        assert forall|i: int| !occurs_at(hay@, needle@, i) by {}
        return false;
    }
    let last: usize = hay.len() - needle.len();
    let mut i: usize = 0;
    while i < last
        invariant
            last == hay.len() - needle.len(),
            needle.len() <= hay.len(),
            i <= last,
            forall|k: int| 0 <= k < i ==> !occurs_at(hay@, needle@, k),
        decreases last - i,
    {
        if occurs_at_exec(hay, needle, i) {
            return true;
        }
        i = i + 1;
    }
    if occurs_at_exec(hay, needle, last) {
        return true;
    }
    assert forall|k: int| !occurs_at(hay@, needle@, k) by {}
    false
}

/// `split_spaces` never yields an empty list.
pub proof fn lemma_split_spaces_nonempty(s: Seq<char>)
    ensures
        split_spaces(s).len() >= 1,
    decreases s.len(),
{
    if s.len() > 0 {
        lemma_split_spaces_nonempty(s.drop_last());
    }
}

/// The pieces of `s` between its spaces (see `split_spaces`).
pub fn split_words(s: &Vec<char>) -> (pieces: Vec<Vec<char>>)
    ensures
        pieces.deep_view() == split_spaces(s@),
{
    let mut done: Vec<Vec<char>> = Vec::new();
    let mut cur: Vec<char> = Vec::new();
    for i in 0..s.len()
        invariant
            done.deep_view().push(cur@) == split_spaces(s@.take(i as int)),
    {
        let ghost before = s@.take(i as int);
        proof {
            assert(s@.take(i + 1).drop_last() =~= before);
            lemma_split_spaces_nonempty(before);
        }
        let c = s[i];
        assert(s@.take(i + 1).last() == c);
        let ghost old_done = done.deep_view();
        let ghost old_cur = cur@;
        if c == ' ' {
            assert(cur.deep_view() =~= cur@);
            done.push(cur);
            cur = Vec::new();
            assert(done.deep_view() =~= old_done.push(old_cur));
            assert(done.deep_view().push(cur@) =~= split_spaces(s@.take(i + 1)));
        } else {
            cur.push(c);
            assert(done.deep_view() =~= old_done);
            assert(old_done.push(old_cur).update(old_done.len() as int, old_cur.push(c))
                =~= old_done.push(cur@));
            assert(done.deep_view().push(cur@) =~= split_spaces(s@.take(i + 1)));
        }
    }
    assert(s@.take(s.len() as int) =~= s@);
    let ghost old_done = done.deep_view();
    let ghost old_cur = cur@;
    assert(cur.deep_view() =~= cur@);
    done.push(cur);
    assert(done.deep_view() =~= old_done.push(old_cur));
    done
}

/// Appends the decimal digits of `n` to `s`.
fn push_nat_digits(s: &mut String, n: u64)
    ensures
        final(s)@ == old(s)@ + nat_digits(n as nat),
    decreases n,
{
    if n >= 10 {
        push_nat_digits(s, n / 10);
    }
    let d: u8 = (n % 10) as u8;
    let c: char = (d + 48) as char;
    assert(c == digit_char((n % 10) as int));
    push_char(s, c);
    assert(final(s)@ =~= old(s)@ + nat_digits(n as nat));
}

/// `n` written in decimal, as `n.to_string()` writes it.
pub fn decimal_text(n: i64) -> (s: String)
    ensures
        s@ == decimal(n as int),
{
    let mut s = String::new();
    if n < 0 {
        push_char(&mut s, '-');
        let magnitude: u64 = (-(n + 1)) as u64 + 1;
        push_nat_digits(&mut s, magnitude);
        assert(s@ =~= decimal(n as int));
    } else {
        push_nat_digits(&mut s, n as u64);
        assert(s@ =~= decimal(n as int));
    }
    s
}

/// Whether `a` and `b` hold the same characters.
pub fn same_chars(a: &Vec<char>, b: &Vec<char>) -> (r: bool)
    ensures
        r == (a@ == b@),
{
    if a.len() != b.len() {
        return false;
    }
    let mut i: usize = 0;
    while i < a.len()
        invariant
            a.len() == b.len(),
            i <= a.len(),
            forall|k: int| 0 <= k < i ==> a@[k] == b@[k],
        decreases a.len() - i,
    {
        if a[i] != b[i] {
            return false;
        }
        i = i + 1;
    }
    assert(a@ =~= b@);
    true
}

/// The digit prefix is made of digits.
pub proof fn lemma_digit_prefix_all_digits(s: Seq<char>)
    ensures
        all_digits(digit_prefix(s)),
        digit_prefix(s).len() <= s.len(),
    decreases s.len(),
{
    if s.len() > 0 && is_ascii_digit(s[0]) {
        lemma_digit_prefix_all_digits(s.drop_first());
        let d = digit_prefix(s);
        assert forall|i: int| 0 <= i < d.len() implies is_ascii_digit(#[trigger] d[i]) by {
            if i > 0 {
                assert(d[i] == digit_prefix(s.drop_first())[i - 1]);
            }
        }
    }
}

/// A string of digits denotes a non-negative number.
pub proof fn lemma_digits_value_nonneg(s: Seq<char>)
    requires
        all_digits(s),
    ensures
        digits_value(s) >= 0,
    decreases s.len(),
{
    if s.len() > 0 {
        assert(is_ascii_digit(s[s.len() - 1]));
        assert forall|i: int| 0 <= i < s.drop_last().len() implies is_ascii_digit(
            #[trigger] s.drop_last()[i],
        ) by {
            assert(s.drop_last()[i] == s[i]);
        }
        lemma_digits_value_nonneg(s.drop_last());
    }
}

/// The decimal digits of `n` are digits, start with no sign, and denote `n`.
pub proof fn lemma_nat_digits_value(n: nat)
    ensures
        nat_digits(n).len() > 0,
        all_digits(nat_digits(n)),
        digits_value(nat_digits(n)) == n,
    decreases n,
{
    let d = nat_digits(n);
    let k = (n % 10) as int;
    assert('0' as int == 48);
    assert(digit_char(k) as int == k + 48);
    if n < 10 {
        assert(d.drop_last() =~= Seq::<char>::empty());
        assert(d.last() == digit_char(k));
        assert(digits_value(d) == digits_value(d.drop_last()) * 10 + (d.last() as int - 48));
    } else {
        lemma_nat_digits_value(n / 10);
        assert(d.drop_last() =~= nat_digits(n / 10));
        assert(d.last() == digit_char(k));
        assert(digits_value(d) == digits_value(d.drop_last()) * 10 + (d.last() as int - 48));
        assert((n / 10) * 10 + k == n);
        assert forall|i: int| 0 <= i < d.len() implies is_ascii_digit(#[trigger] d[i]) by {
            if i < d.len() - 1 {
                assert(d[i] == nat_digits(n / 10)[i]);
            }
        }
    }
}

/// What the bot writes as a number, Rust's integer parsing reads back as
/// that same number.
pub proof fn lemma_decimal_parses_back(n: nat)
    ensures
        unsigned_literal(nat_digits(n)) == Some(n as int),
        signed_literal(nat_digits(n)) == Some(n as int),
{
    lemma_nat_digits_value(n);
    assert(is_ascii_digit(nat_digits(n)[0]));
}

/// Appending a digit multiplies the value by ten and adds the digit.
proof fn lemma_digits_value_push(x: Seq<char>, c: char)
    ensures
        digits_value(x.push(c)) == digits_value(x) * 10 + (c as int - '0' as int),
{
    assert(x.push(c).drop_last() =~= x);
}

/// `str::parse::<i32>(s).ok()`, as `i32::from_str_radix` documents it: an
/// optional `+` or `-` followed by ASCII digits whose value fits in an
/// `i32` gives that value; any other text gives `None`.
pub fn parse_i32(s: &str) -> (r: Option<i32>)
    ensures
        r is Some <==> (signed_literal(s@) matches Some(v) && i32::MIN <= v <= i32::MAX),
        r matches Some(n) ==> signed_literal(s@) == Some(n as int),
{
    let c = chars_of(s);
    let mut start: usize = 0;
    let mut negative = false;
    if c.len() > 0 && (c[0] == '+' || c[0] == '-') {
        start = 1;
        negative = c[0] == '-';
    }
    let ghost digits = c@.subrange(start as int, c@.len() as int);
    proof {
        if start == 1 {
            assert(digits =~= c@.drop_first());
        } else {
            assert(digits =~= c@);
        }
    }
    assert(signed_literal(s@) == (if digits.len() > 0 && all_digits(digits) {
        Some(if negative { -digits_value(digits) } else { digits_value(digits) })
    } else {
        None::<int>
    }));
    if start == c.len() {
        return None;
    }
    // `acc` is the value of the digits read so far while it stays at most
    // 2^31; past that, `big` is set and only the digits are still checked.
    let mut acc: u64 = 0;
    let mut big = false;
    let mut k: usize = start;
    while k < c.len()
        invariant
            start <= k <= c.len(),
            start <= 1,
            digits == c@.subrange(start as int, c@.len() as int),
            signed_literal(s@) == (if digits.len() > 0 && all_digits(digits) {
                Some(if negative { -digits_value(digits) } else { digits_value(digits) })
            } else {
                None::<int>
            }),
            all_digits(c@.subrange(start as int, k as int)),
            !big ==> acc == digits_value(c@.subrange(start as int, k as int)) && acc <= 2147483648,
            big ==> digits_value(c@.subrange(start as int, k as int)) > 2147483648,
        decreases c.len() - k,
    {
        let ch = c[k];
        let ghost before = c@.subrange(start as int, k as int);
        assert(c@.subrange(start as int, k + 1) =~= before.push(ch));
        if !(ch >= '0' && ch <= '9') {
            assert(digits[k - start] == ch);
            assert(!all_digits(digits));
            return None;
        }
        proof {
            lemma_digits_value_push(before, ch);
            assert forall|i: int| 0 <= i < before.push(ch).len() implies is_ascii_digit(
                #[trigger] before.push(ch)[i],
            ) by {
                if i < before.len() {
                    assert(before.push(ch)[i] == before[i]);
                }
            }
        }
        if !big {
            let d: u64 = ((ch as u8) - 48) as u64;
            let next: u64 = acc * 10 + d;
            if next > 2147483648 {
                big = true;
            } else {
                acc = next;
            }
        }
        k = k + 1;
    }
    assert(c@.subrange(start as int, c.len() as int) == digits);
    if big {
        return None;
    }
    if negative {
        Some((-(acc as i64)) as i32)
    } else if acc <= 2147483647 {
        Some(acc as i32)
    } else {
        None
    }
}

/// A text found in `hay` is still found once more text follows `hay`.
pub proof fn lemma_contains_in_prefix(hay: Seq<char>, more: Seq<char>, needle: Seq<char>)
    requires
        contains_text(hay, needle),
    ensures
        contains_text(hay + more, needle),
{
    let i = choose|i: int| occurs_at(hay, needle, i);
    assert((hay + more).subrange(i, i + needle.len()) =~= hay.subrange(i, i + needle.len()));
    assert(occurs_at(hay + more, needle, i));
}

/// The end of a text is found in it.
pub proof fn lemma_contains_suffix(front: Seq<char>, back: Seq<char>)
    ensures
        contains_text(front + back, back),
{
    assert((front + back).subrange(front.len() as int, (front.len() + back.len()) as int) =~= back);
    assert(occurs_at(front + back, back, front.len() as int));
}

/// The decimal form of a number is never empty.
pub proof fn lemma_decimal_nonempty(n: int)
    ensures
        decimal(n).len() > 0,
{
    if n < 0 {
        lemma_nat_digits_value((-n) as nat);
    } else {
        lemma_nat_digits_value(n as nat);
    }
}

} // verus!
