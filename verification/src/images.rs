use rand::seq::SliceRandom;
use vstd::prelude::*;

use crate::text::{
    lemma_digit_prefix_all_digits, lemma_digits_value_nonneg,
    digit_prefix, digits_value, parse_i32, signed_literal,
    all_digits,
};
use crate::util::parse_some_num;

verus! {

/// The number a picture's file name starts with: its leading digits read as
/// an `i32`, or 0 when there are none or they do not fit.
pub open spec fn image_number_spec(file_name: Seq<char>) -> i32 {
    let digits = digit_prefix(file_name);
    if digits.len() > 0 && digits_value(digits) <= i32::MAX {
        digits_value(digits) as i32
    } else {
        0
    }
}

/// A prefix of digits is a signed literal exactly when it is not empty.
proof fn lemma_digit_prefix_literal(s: Seq<char>)
    ensures
        all_digits(digit_prefix(s)),
        digit_prefix(s).len() > 0 ==> signed_literal(digit_prefix(s)) == Some(
            digits_value(digit_prefix(s)),
        ),
        digit_prefix(s).len() == 0 ==> signed_literal(digit_prefix(s)) is None,
        digits_value(digit_prefix(s)) >= 0,
{
    lemma_digit_prefix_all_digits(s);
    lemma_digits_value_nonneg(digit_prefix(s));
}

/// The number of the picture in the file `file_name`
/// (`parse_some_num(name).parse::<i32>().unwrap_or(0)`).
pub fn image_number(file_name: &str) -> (n: i32)
    ensures
        n == image_number_spec(file_name@),
{
    let digits = parse_some_num(file_name.to_string());
    proof {
        lemma_digit_prefix_literal(file_name@);
    }
    match parse_i32(digits.as_str()) {
        Some(n) => n,
        None => 0,
    }
}

/// The outcome of one random draw among the picture files.
#[derive(Debug)]
pub enum Draw {
    /// There are no files to draw from.
    NoFiles,
    /// The drawn file holds a banned picture: draw again.
    Banned(i32),
    /// The drawn file, and the number of its picture.
    Chosen(String, i32),
}

/// The picture number a draw of the file `file_name` may send under the ban
/// list `banned`: its number, unless that number is banned.
pub open spec fn drawn_number(file_name: Seq<char>, banned: Seq<i32>) -> Option<i32> {
    let n = image_number_spec(file_name);
    if banned.contains(n) {
        None
    } else {
        Some(n)
    }
}

/// Whether `banned` holds `n`.
pub fn is_banned(banned: &Vec<i32>, n: i32) -> (r: bool)
    ensures
        r == banned@.contains(n),
{
    let mut i: usize = 0;
    while i < banned.len()
        invariant
            i <= banned.len(),
            forall|k: int| 0 <= k < i ==> banned@[k] != n,
        decreases banned.len() - i,
    {
        if banned[i] == n {
            assert(banned@[i as int] == n);
            return true;
        }
        i = i + 1;
    }
    false
}

/// The result of a draw that picked the file `chosen` (`None`: no file to
/// pick): no files, a banned picture to draw again from, or the chosen file
/// with its picture's number, which is never banned.
pub fn draw_outcome(chosen: Option<&String>, banned: &Vec<i32>) -> (d: Draw)
    ensures
        chosen is None <==> d is NoFiles,
        chosen matches Some(name) ==> match d {
            Draw::Banned(n) => n == image_number_spec(name@) && banned@.contains(n),
            Draw::Chosen(file, n) => file@ == name@ && n == image_number_spec(name@)
                && !banned@.contains(n),
            Draw::NoFiles => false,
        },
        chosen matches Some(name) ==> (match d {
            Draw::Chosen(_, n) => drawn_number(name@, banned@) == Some(n),
            _ => drawn_number(name@, banned@) is None,
        }),
{
    match chosen {
        None => Draw::NoFiles,
        Some(name) => {
            let n: i32 = image_number(name.as_str());
            if is_banned(banned, n) {
                Draw::Banned(n)
            } else {
                Draw::Chosen(name.clone(), n)
            }
        },
    }
}

/// `rand::seq::SliceRandom::choose` on the thread-local generator: `None`
/// exactly for an empty list, else one of its names; which one is left to
/// chance.
#[verifier::external_body]
fn choose_file(file_names: &Vec<String>) -> (r: Option<&String>)
    ensures
        file_names@.len() == 0 <==> r is None,
        r matches Some(name) ==> file_names@.contains(*name),
{
    file_names.as_slice().choose(&mut rand::thread_rng())
}

/// Draws one picture file at random from `file_names` and judges it against
/// the ban list: no files, a banned picture, or a file of the list whose
/// picture is not banned.
pub fn draw_file(file_names: &Vec<String>, banned: &Vec<i32>) -> (d: Draw)
    ensures
        file_names@.len() == 0 <==> d is NoFiles,
        d matches Draw::Banned(n) ==> banned@.contains(n) && exists|i: int|
            0 <= i < file_names@.len() && n == image_number_spec(file_names@[i]@),
        d matches Draw::Chosen(file, n) ==> exists|i: int|
            0 <= i < file_names@.len() && file_names@[i]@ == file@ && n == image_number_spec(
                file_names@[i]@,
            ) && !banned@.contains(n),
{
    let chosen = choose_file(file_names);
    let d = draw_outcome(chosen, banned);
    proof {
        if let Some(name) = chosen {
            let i = choose|i: int| 0 <= i < file_names@.len() && file_names@[i] == *name;
            assert(file_names@[i] == *name);
            assert(file_names@[i]@ == name@);
        }
    }
    d
}

/// What a request for one picture by its number found.
#[derive(Debug, PartialEq, Eq)]
pub enum SpecificFile {
    /// No file holds the picture with the requested number.
    NotFound,
    /// The first file that holds it; the picture is banned.
    Banned(usize),
    /// The first file that holds it; the picture may be sent.
    Found(usize),
}

/// The file named `file_name` holds picture number `image`: its leading
/// digits denote `image` (leading zeros allowed).
pub open spec fn holds_image(file_name: Seq<char>, image: u16) -> bool {
    digit_prefix(file_name).len() > 0 && digits_value(digit_prefix(file_name)) == image as int
}

/// `file_names[i]` is the first name of a file that holds picture `image`.
pub open spec fn first_holding(file_names: Seq<String>, image: u16, i: int) -> bool {
    &&& 0 <= i < file_names.len()
    &&& holds_image(file_names[i]@, image)
    &&& forall|j: int| 0 <= j < i ==> !holds_image(#[trigger] file_names[j]@, image)
}

/// Finds picture number `image` among the files named `file_names`: the
/// first file whose number is `image`, unless that picture is banned.
pub fn specific_file_choice(file_names: &Vec<String>, image: u16, banned: &Vec<i32>) -> (r:
    SpecificFile)
    ensures
        match r {
            SpecificFile::NotFound => forall|i: int|
                0 <= i < file_names@.len() ==> !holds_image(#[trigger] file_names@[i]@, image),
            SpecificFile::Banned(i) => first_holding(file_names@, image, i as int)
                && banned@.contains(image as i32),
            SpecificFile::Found(i) => first_holding(file_names@, image, i as int)
                && !banned@.contains(image as i32),
        },
{
    let mut i: usize = 0;
    while i < file_names.len()
        invariant
            i <= file_names.len(),
            forall|j: int| 0 <= j < i ==> !holds_image(#[trigger] file_names@[j]@, image),
        decreases file_names.len() - i,
    {
        let digits = parse_some_num(file_names[i].clone());
        proof {
            lemma_digit_prefix_literal(file_names@[i as int]@);
        }
        match parse_i32(digits.as_str()) {
            Some(n) => {
                if n == image as i32 {
                    if is_banned(banned, n) {
                        return SpecificFile::Banned(i);
                    } else {
                        return SpecificFile::Found(i);
                    }
                }
            },
            None => {},
        }
        i = i + 1;
    }
    SpecificFile::NotFound
}

/// Once picture `n` stands on the ban list that draws are given, no draw of
/// any file sends it.
pub proof fn lemma_banned_picture_stays_unsent(banned: Seq<i32>, n: u16, file_name: Seq<char>)
    requires
        banned.contains(n as i32),
    ensures
        drawn_number(file_name, banned) != Some(n as i32),
{
}

/// A request for picture `n` finds exactly the files whose number, as a
/// draw reads and captions it, is `n`: leading zeros do not matter ("007.jpg"
/// holds picture 7). For `n == 0` the drawn number 0 also stands for files
/// without a number, which a request for 0 does not find.
pub proof fn lemma_request_finds_drawn_number(file_name: Seq<char>, n: u16)
    ensures
        n > 0 ==> (holds_image(file_name, n) <==> image_number_spec(file_name) == n as i32),
        holds_image(file_name, n) ==> image_number_spec(file_name) == n as i32,
{
    lemma_digit_prefix_all_digits(file_name);
    lemma_digits_value_nonneg(digit_prefix(file_name));
}

/// Zeros written before a file's number change nothing: the file with "0"
/// put before its name holds the same picture.
pub proof fn lemma_leading_zero_same_picture(file_name: Seq<char>, n: u16)
    requires
        file_name.len() > 0,
        crate::text::is_ascii_digit(file_name[0]),
    ensures
        holds_image(seq!['0'] + file_name, n) == holds_image(file_name, n),
{
    let z = seq!['0'] + file_name;
    assert(z.drop_first() =~= file_name);
    assert(digit_prefix(z) == seq!['0'] + digit_prefix(file_name));
    lemma_digits_value_leading_zero(digit_prefix(file_name));
}

/// A leading zero does not change the value of a string of digits.
proof fn lemma_digits_value_leading_zero(d: Seq<char>)
    ensures
        digits_value(seq!['0'] + d) == digits_value(d),
    decreases d.len(),
{
    if d.len() > 0 {
        let z = seq!['0'] + d;
        assert(z.drop_last() =~= seq!['0'] + d.drop_last());
        assert(z.last() == d.last());
        lemma_digits_value_leading_zero(d.drop_last());
    } else {
        let z = seq!['0'] + d;
        assert(z.drop_last() =~= Seq::<char>::empty());
        assert(z.last() == '0');
        assert(digits_value(Seq::<char>::empty()) == 0);
    }
}

} // verus!
