//! Futures codes: the derivative symbols of a year.
use crate::subscriber::texts;
use crate::text::{decimal, decimal_text, two_digit, two_digit_text};
use vstd::prelude::*;
use vstd::string::StringExecFns;

verus! {

/// The month letters of all twelve months, January to December.
pub open spec fn all_months() -> Seq<Seq<char>> {
    seq!["F"@, "G"@, "H"@, "J"@, "K"@, "M"@, "N"@, "Q"@, "U"@, "V"@, "X"@, "Z"@]
}

/// The month letters of the even months, February to December.
pub open spec fn even_months() -> Seq<Seq<char>> {
    seq!["G"@, "J"@, "M"@, "Q"@, "V"@, "Z"@]
}

/// The last two digits of a year, as they stand at the end of a futures
/// code. A year before the year 0 keeps its sign and loses the padding.
pub open spec fn year_suffix(year: int) -> Seq<char> {
    if year >= 0 {
        two_digit((year % 100) as nat)
    } else if (-year) % 100 == 0 {
        two_digit(0)
    } else {
        seq!['-'] + decimal(((-year) % 100) as nat)
    }
}

/// The codes of one root: root, month letter, year suffix, for each of the
/// letters.
pub open spec fn codes(root: Seq<char>, letters: Seq<Seq<char>>, suffix: Seq<char>) -> Seq<
    Seq<char>,
> {
    Seq::new(letters.len(), |i: int| root + letters[i] + suffix)
}

/// The futures codes of a year: the index future for the even months, the
/// dollar future and the bitcoin future for every month.
pub open spec fn futures_of(year: int) -> Seq<Seq<char>> {
    codes("win"@, even_months(), year_suffix(year)) + codes(
        "wdo"@,
        all_months(),
        year_suffix(year),
    ) + codes("bit"@, all_months(), year_suffix(year))
}

/// The texts held by a vector of string slices.
pub open spec fn slices(v: Seq<&'static str>) -> Seq<Seq<char>> {
    Seq::new(v.len(), |i: int| v[i]@)
}

/// Reads the year of the current date in UTC, by `chrono::Utc::now` and
/// `chrono::Datelike::year`. Nothing is promised of the year.
#[verifier::external_body]
fn utc_year() -> (year: i32) {
    chrono::Datelike::year(&chrono::Utc::now())
}

fn suffix_text(year: i32) -> (text: String)
    ensures
        text@ == year_suffix(year as int),
{
    if year >= 0 {
        two_digit_text((year as u64) % 100)
    } else {
        let magnitude: u64 = (-(year as i64)) as u64;
        let rest: u64 = magnitude % 100;
        if rest == 0 {
            two_digit_text(0)
        } else {
            proof {
                reveal_strlit("-");
            }
            let mut text = String::from_str("-");
            let digits = decimal_text(rest);
            text.append(digits.as_str());
            assert(text@ =~= year_suffix(year as int));
            text
        }
    }
}

fn push_codes(out: &mut Vec<String>, root: &str, letters: &Vec<&'static str>, suffix: &str)
    ensures
        texts(final(out)@) == texts(old(out)@) + codes(root@, slices(letters@), suffix@),
{
    let n: usize = letters.len();
    let mut i: usize = 0;
    let ghost start = texts(out@);
    let ghost all = codes(root@, slices(letters@), suffix@);
    assert(texts(out@) =~= start + all.subrange(0, 0));
    while i < n
        invariant
            i <= n,
            n == letters@.len(),
            all == codes(root@, slices(letters@), suffix@),
            texts(out@) == start + all.subrange(0, i as int),
        decreases n - i,
    {
        let mut code = String::from_str(root);
        code.append(letters[i]);
        code.append(suffix);
        let ghost before = texts(out@);
        out.push(code);
        assert(texts(out@) =~= before.push(code@));
        assert(all.subrange(0, i + 1) =~= all.subrange(0, i as int).push(all[i as int]));
        assert(texts(out@) =~= start + all.subrange(0, i + 1));
        i = i + 1;
    }
    assert(all.subrange(0, n as int) =~= all);
}

/// Gives the futures codes of a year.
pub fn futures_for_year(year: i32) -> (list: Vec<String>)
    ensures
        texts(list@) == futures_of(year as int),
        list@.len() == 30,
{
    let suffix = suffix_text(year);
    let even: Vec<&'static str> = vec!["G", "J", "M", "Q", "V", "Z"];
    let all: Vec<&'static str> = vec!["F", "G", "H", "J", "K", "M", "N", "Q", "U", "V", "X", "Z"];
    assert(slices(even@) =~= even_months());
    assert(slices(all@) =~= all_months());
    let mut list: Vec<String> = Vec::new();
    assert(texts(list@) =~= Seq::<Seq<char>>::empty());
    push_codes(&mut list, "win", &even, suffix.as_str());
    push_codes(&mut list, "wdo", &all, suffix.as_str());
    push_codes(&mut list, "bit", &all, suffix.as_str());
    assert(texts(list@) =~= futures_of(year as int));
    assert(texts(list@).len() == 30);
    list
}

/// Gives the futures codes of the current year, by the calendar in UTC.
pub fn get_futures() -> (list: Vec<String>)
    ensures
        exists|year: i32| texts(list@) == futures_of(year as int),
        list@.len() == 30,
{
    let year = utc_year();
    futures_for_year(year)
}

} // verus!
