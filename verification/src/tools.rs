use vstd::prelude::*;
use rand::Rng;

verus! {

use crate::app_error::{AppError, ErrorKind};

/// Relies on String::push: it appends the given character to the end of the
/// string, as its standard-library documentation states.
pub assume_specification[ String::push ](s: &mut String, ch: char)
    ensures
        final(s)@ == old(s)@.push(ch),
;

/// The characters a generated identifier is drawn from: ASCII letters and
/// digits.
pub open spec fn is_alphanumeric_char(c: char) -> bool {
    ||| 'a' <= c && c <= 'z'
    ||| 'A' <= c && c <= 'Z'
    ||| '0' <= c && c <= '9'
}

/// Relies on rand's `Alphanumeric` distribution: every sampled byte is an
/// ASCII letter or digit (a-z, A-Z, 0-9), so collecting `len` samples yields
/// a string of exactly `len` such characters.
#[verifier::external_body]
fn sample_alphanumeric(len: usize) -> (r: String)
    ensures
        r@.len() == len as nat,
        forall|i: int| 0 <= i < r@.len() ==> is_alphanumeric_char(#[trigger] r@[i]),
{
    rand::thread_rng()
        .sample_iter(&rand::distributions::Alphanumeric)
        .take(len)
        .map(char::from)
        .collect()
}

/// Generates a string of `size` random alphanumeric characters; sizes above
/// the generator's limit of thirty are rejected.
pub fn generate_random_alphanum(size: usize) -> (r: Result<String, AppError>)
    ensures
        size <= 30 ==> (r matches Ok(s)
            && s@.len() == size as nat
            && (forall|i: int| 0 <= i < s@.len() ==> is_alphanumeric_char(#[trigger] s@[i]))),
        size > 30 ==> (r matches Err(e)
            && e.kind == ErrorKind::FailedAction
            && e.message@ == "size must not be greater than 30"@),
{
    if size > 30 {
        return Err(AppError::new(
            "size must not be greater than 30",
            ErrorKind::FailedAction,
        ));
    }

    Ok(sample_alphanumeric(size))
}

/// The string `s` regrouped up to its first `n` characters: a dash is placed
/// before each character whose index is a positive multiple of `size`.
pub open spec fn split_upto(s: Seq<char>, size: nat, n: nat) -> Seq<char>
    decreases n,
{
    if n == 0 {
        Seq::empty()
    } else {
        let prev = split_upto(s, size, (n - 1) as nat);
        let with_sep = if (n - 1) as nat % size == 0 && n != 1 {
            prev.push('-')
        } else {
            prev
        };
        with_sep.push(s[n - 1])
    }
}

/// The whole of `s` regrouped into dash-separated blocks of `size` characters.
pub open spec fn split_into_parts_spec(s: Seq<char>, size: nat) -> Seq<char> {
    split_upto(s, size, s.len())
}

/// Splits a string into dash-separated parts of the given size.
pub fn split_into_parts(str: String, size: usize) -> (res: String)
    requires
        str@.len() == 0 || size > 0,
    ensures
        res@ == split_into_parts_spec(str@, size as nat),
{
    let mut res = String::new();
    let n: usize = str.as_str().unicode_len();
    let mut i: usize = 0;

    while i < n
        invariant
            i <= n,
            n == str@.len(),
            n > 0 ==> size > 0,
            res@ == split_upto(str@, size as nat, i as nat),
        decreases n - i,
    {
        let c = str.as_str().get_char(i);
        if i % size == 0 && i != 0 {
            res.push('-');
        }
        res.push(c);
        i = i + 1;
    }

    res
}

} // verus!
