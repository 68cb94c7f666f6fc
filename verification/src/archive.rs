//! The archive of a day: how it is named, under which key it is stored,
//! and how the entries of the quote archive are unpacked.
use vstd::prelude::*;
use vstd::string::{StrSliceExecFns, StringExecFns};

verus! {

/// Name of the archive of the day with this date text.
pub open spec fn archive_name_of(date: Seq<char>) -> Seq<char> {
    "md-"@ + date + ".zip"@
}

/// Path at which the archive is built.
pub open spec fn archive_path_of(date: Seq<char>) -> Seq<char> {
    "./"@ + archive_name_of(date)
}

/// Key under which the archive is stored: the date as a folder, then the
/// name of the archive.
pub open spec fn blob_key_of(date: Seq<char>) -> Seq<char> {
    date + "/"@ + archive_name_of(date)
}

/// Whether `c` is a decimal digit.
pub open spec fn is_digit(c: char) -> bool {
    '0' <= c <= '9'
}

/// Whether `text` has the shape of a calendar date: a year of four
/// characters or more, a hyphen, two digits for the month, a hyphen, two
/// digits for the day. A year from 0 to 9999 takes four digits; any other
/// takes a sign and more.
pub open spec fn is_date_text(text: Seq<char>) -> bool {
    &&& text.len() >= 10
    &&& text[text.len() - 6] == '-'
    &&& is_digit(text[text.len() - 5])
    &&& is_digit(text[text.len() - 4])
    &&& text[text.len() - 3] == '-'
    &&& is_digit(text[text.len() - 2])
    &&& is_digit(text[text.len() - 1])
}

/// Gives today's date in UTC as text, by `chrono::Utc::now` and the
/// pattern `%Y-%m-%d`. Which day it is cannot be promised, but the shape
/// can: chrono writes the year in at least four characters and the month
/// and the day in two digits each, with hyphens between.
#[verifier::external_body]
fn utc_date_text() -> (date: String)
    ensures
        is_date_text(date@),
{
    chrono::Utc::now().format("%Y-%m-%d").to_string()
}

/// Names the archive of a day.
pub fn archive_name(date: &str) -> (name: String)
    ensures
        name@ == archive_name_of(date@),
{
    let mut name = String::from_str("md-");
    name.append(date);
    name.append(".zip");
    name
}

/// Gives the path at which the archive of a day is built.
pub fn archive_path(date: &str) -> (path: String)
    ensures
        path@ == archive_path_of(date@),
{
    let mut path = String::from_str("./");
    let name = archive_name(date);
    path.append(name.as_str());
    path
}

/// Gives the key under which the archive of a day is stored.
pub fn blob_key(date: &str) -> (key: String)
    ensures
        key@ == blob_key_of(date@),
{
    let mut key = String::from_str(date);
    key.append("/");
    let name = archive_name(date);
    key.append(name.as_str());
    assert(key@ =~= blob_key_of(date@));
    key
}

/// How today's archive is named and stored.
#[derive(Clone, Debug, PartialEq, Eq)]
pub struct ArchiveNames {
    /// Today's date as text.
    pub date: String,
    /// Path at which the archive is built.
    pub path: String,
    /// Key under which the archive is stored.
    pub key: String,
}

/// Names today's archive, by the calendar in UTC.
pub fn todays_archive() -> (names: ArchiveNames)
    ensures
        is_date_text(names.date@),
        names.path@ == archive_path_of(names.date@),
        names.key@ == blob_key_of(names.date@),
{
    let date = utc_date_text();
    let path = archive_path(date.as_str());
    let key = blob_key(date.as_str());
    ArchiveNames { date, path, key }
}

/// What an entry of an archive is unpacked to.
#[derive(Clone, Copy, Debug, PartialEq, Eq, Structural)]
pub enum EntryKind {
    /// A directory, to be created with all its parents.
    Directory,
    /// A file, to be written after its parent directory was created.
    File,
}

/// What the entry of this name is: a name that ends with a slash stands
/// for a directory, any other for a file.
pub open spec fn entry_kind(name: Seq<char>) -> EntryKind {
    if name.len() > 0 && name.last() == '/' {
        EntryKind::Directory
    } else {
        EntryKind::File
    }
}

/// Tells what the entry of this name is.
pub fn kind_of_entry(name: &str) -> (kind: EntryKind)
    ensures
        kind == entry_kind(name@),
{
    let n: usize = name.unicode_len();
    if n > 0 && name.get_char(n - 1) == '/' {
        EntryKind::Directory
    } else {
        EntryKind::File
    }
}

/// Plans the unpacking of an archive from the names of its entries: for
/// each entry, in order, whether a directory or a file is to be made
/// of it.
pub fn unzip_path(entry_names: &Vec<String>) -> (plan: Vec<EntryKind>)
    ensures
        plan@.len() == entry_names@.len(),
        forall|i: int| 0 <= i < entry_names@.len() ==> #[trigger] plan@[i] == entry_kind(
            entry_names@[i]@,
        ),
{
    let mut plan: Vec<EntryKind> = Vec::new();
    let n: usize = entry_names.len();
    let mut i: usize = 0;
    while i < n
        invariant
            i <= n,
            n == entry_names@.len(),
            plan@.len() == i,
            forall|k: int| 0 <= k < i ==> #[trigger] plan@[k] == entry_kind(entry_names@[k]@),
        decreases n - i,
    {
        plan.push(kind_of_entry(entry_names[i].as_str()));
        i = i + 1;
    }
    plan
}

} // verus!
