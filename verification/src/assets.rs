//! Asset discovery: the instrument names held by the historical quote
//! file, one record per line with the name in a fixed column.
use crate::subscriber::texts;
use vstd::hash_set::StringHashSet;
use vstd::prelude::*;
use vstd::string::{StringExecFns, StringSliceAdditionalSpecFns};
use vstd::utf8::{decode_utf8, encode_utf8, is_char_boundary, is_continuation_byte, valid_utf8};

verus! {

/// Byte at which the name column starts.
pub const NAME_START: usize = 12;

/// Byte behind the name column.
pub const NAME_END: usize = 24;

/// A text without its leading and trailing white space, as `str::trim` of
/// the standard library gives it.
pub uninterp spec fn trim_of(text: Seq<char>) -> Seq<char>;

/// `part` stands in `whole` as one piece.
pub open spec fn is_slice_of(part: Seq<char>, whole: Seq<char>) -> bool {
    exists|from: int, to: int|
        0 <= from <= to <= whole.len() && part == #[trigger] whole.subrange(from, to)
}

/// Trims a text with `str::trim`, which gives a slice of the text it is
/// called on: the text without the white space at its two ends.
#[verifier::external_body]
fn trimmed(text: &str) -> (bare: String)
    ensures
        bare@ == trim_of(text@),
        is_slice_of(bare@, text@),
{
    text.trim().to_string()
}

/// Whether the name column of a record can be cut out: a record long
/// enough to hold the column has to start a character at both ends of it.
pub open spec fn sliceable(line: Seq<char>) -> bool {
    encode_utf8(line).len() >= NAME_END ==> is_char_boundary(encode_utf8(line), NAME_START as int)
        && is_char_boundary(encode_utf8(line), NAME_END as int)
}

/// The name column of a record: its bytes 12 to 23, read as text.
pub open spec fn name_column(line: Seq<char>) -> Seq<char> {
    decode_utf8(encode_utf8(line).subrange(NAME_START as int, NAME_END as int))
}

/// The name that a record holds: the name column without the padding. A
/// record too short for the column holds none.
pub open spec fn asset_name(line: Seq<char>) -> Option<Seq<char>> {
    if encode_utf8(line).len() >= NAME_END {
        Some(trim_of(name_column(line)))
    } else {
        None
    }
}

/// The names held by the records, each once, in the order in which they
/// first occur.
pub open spec fn names_of(lines: Seq<Seq<char>>) -> Seq<Seq<char>>
    decreases lines.len(),
{
    if lines.len() == 0 {
        Seq::empty()
    } else {
        let before = names_of(lines.drop_last());
        match asset_name(lines.last()) {
            Some(name) => if before.contains(name) {
                before
            } else {
                before.push(name)
            },
            None => before,
        }
    }
}

/// The text held by an optional string.
pub open spec fn text_of(name: Option<String>) -> Option<Seq<char>> {
    match name {
        Some(n) => Some(n@),
        None => None,
    }
}

/// No name is listed twice, every name of a record is listed, and nothing
/// is listed that no record holds.
pub proof fn lemma_names_once_each(lines: Seq<Seq<char>>)
    ensures
        names_of(lines).no_duplicates(),
        forall|i: int|
            0 <= i < lines.len() && asset_name(#[trigger] lines[i]) is Some ==> names_of(
                lines,
            ).contains(asset_name(lines[i])->0),
        forall|k: int|
            0 <= k < names_of(lines).len() ==> exists|i: int|
                0 <= i < lines.len() && asset_name(#[trigger] lines[i]) == Some(
                    #[trigger] names_of(lines)[k],
                ),
    decreases lines.len(),
{
    if lines.len() > 0 {
        let front = lines.drop_last();
        lemma_names_once_each(front);
        let before = names_of(front);
        let now = names_of(lines);
        assert forall|i: int| 0 <= i < lines.len() && asset_name(#[trigger] lines[i]) is Some implies now.contains(
            asset_name(lines[i])->0,
        ) by {
            let name = asset_name(lines[i])->0;
            if i < front.len() {
                assert(lines[i] == front[i]);
                let at = choose|at: int| 0 <= at < before.len() && before[at] == name;
                assert(now[at] == name);
            } else {
                if before.contains(name) {
                } else {
                    assert(now[before.len() as int] == name);
                }
            }
        }
        assert forall|k: int| 0 <= k < now.len() implies exists|i: int|
            0 <= i < lines.len() && asset_name(#[trigger] lines[i]) == Some(
                #[trigger] now[k],
            ) by {
            if k < before.len() {
                assert(now[k] == before[k]);
                let i = choose|i: int|
                    0 <= i < front.len() && asset_name(#[trigger] front[i]) == Some(before[k]);
                assert(lines[i] == front[i]);
            } else {
                assert(asset_name(lines[lines.len() - 1]) == Some(now[k]));
            }
        }
    }
}

/// Tells whether the name column of a record can be cut out.
pub fn is_sliceable(line: &str) -> (ok: bool)
    ensures
        ok == sliceable(line@),
{
    if line.as_bytes().len() >= NAME_END {
        line.is_char_boundary(NAME_START) && line.is_char_boundary(NAME_END)
    } else {
        true
    }
}

/// Reads the name out of a record.
pub fn asset_name_of(line: &str) -> (name: Option<String>)
    requires
        sliceable(line@),
    ensures
        text_of(name) == asset_name(line@),
        name matches Some(n) ==> is_slice_of(n@, name_column(line@)),
{
    if line.as_bytes().len() < NAME_END {
        return None;
    }
    let ghost bytes = line.spec_bytes();
    let (head, _) = line.split_at(NAME_END);
    proof {
        vstd::utf8::encode_utf8_valid_utf8(line@);
        vstd::utf8::encode_utf8_valid_utf8(head@);
        vstd::utf8::is_char_boundary_iff_not_is_continuation_byte(bytes, NAME_START as int);
        vstd::utf8::is_char_boundary_iff_not_is_continuation_byte(
            head.spec_bytes(),
            NAME_START as int,
        );
        assert(head.spec_bytes()[NAME_START as int] == bytes[NAME_START as int]);
    }
    let (_, column) = head.split_at(NAME_START);
    proof {
        assert(column.spec_bytes() =~= bytes.subrange(NAME_START as int, NAME_END as int));
        vstd::utf8::encode_utf8_decode_utf8(column@);
    }
    Some(trimmed(column))
}

/// Collects the names held by the records of the quote file: each name
/// once, in the order of first occurrence. A hash set tells which names
/// were met before.
pub fn extract_asset_names(lines: &Vec<String>) -> (names: Vec<String>)
    requires
        forall|i: int| 0 <= i < lines@.len() ==> sliceable(#[trigger] lines@[i]@),
    ensures
        texts(names@) == names_of(texts(lines@)),
{
    let mut names: Vec<String> = Vec::new();
    let mut seen = StringHashSet::new();
    let n: usize = lines.len();
    let mut i: usize = 0;
    assert(texts(lines@).subrange(0, 0) =~= Seq::<Seq<char>>::empty());
    assert(texts(names@) =~= Seq::<Seq<char>>::empty());
    while i < n
        invariant
            i <= n,
            n == lines@.len(),
            forall|k: int| 0 <= k < lines@.len() ==> sliceable(#[trigger] lines@[k]@),
            texts(names@) == names_of(texts(lines@).subrange(0, i as int)),
            forall|t: Seq<char>| seen@.contains(t) <==> texts(names@).contains(t),
        decreases n - i,
    {
        proof {
            let upto = texts(lines@).subrange(0, i + 1);
            assert(upto.drop_last() =~= texts(lines@).subrange(0, i as int));
            assert(upto.last() == lines@[i as int]@);
        }
        match asset_name_of(lines[i].as_str()) {
            Some(name) => {
                if seen.insert(name.clone()) {
                    let ghost before = texts(names@);
                    names.push(name);
                    proof {
                        let now = texts(names@);
                        assert(now =~= before.push(name@));
                        assert forall|t: Seq<char>| seen@.contains(t) <==> now.contains(t) by {
                            if now.contains(t) {
                                let at = choose|at: int| 0 <= at < now.len() && now[at] == t;
                                if at < before.len() {
                                    assert(before[at] == t);
                                }
                            }
                            if before.contains(t) {
                                let at = choose|at: int| 0 <= at < before.len() && before[at] == t;
                                assert(now[at] == t);
                            }
                            if t == name@ {
                                assert(now[before.len() as int] == t);
                            }
                        }
                    }
                }
            },
            None => {},
        }
        i = i + 1;
    }
    assert(texts(lines@).subrange(0, n as int) =~= texts(lines@));
    names
}

/// Reads the asset list back: one name per line, without the white space
/// around it.
pub fn read_asset_names(lines: &Vec<String>) -> (names: Vec<String>)
    ensures
        names@.len() == lines@.len(),
        forall|i: int| 0 <= i < lines@.len() ==> (#[trigger] names@[i])@ == trim_of(lines@[i]@),
        forall|i: int| 0 <= i < lines@.len() ==> is_slice_of((#[trigger] names@[i])@, lines@[i]@),
{
    let mut names: Vec<String> = Vec::new();
    let n: usize = lines.len();
    let mut i: usize = 0;
    while i < n
        invariant
            i <= n,
            n == lines@.len(),
            names@.len() == i,
            forall|k: int| 0 <= k < i ==> (#[trigger] names@[k])@ == trim_of(lines@[k]@),
            forall|k: int| 0 <= k < i ==> is_slice_of((#[trigger] names@[k])@, lines@[k]@),
        decreases n - i,
    {
        names.push(trimmed(lines[i].as_str()));
        i = i + 1;
    }
    names
}

/// The text of the asset list: each name on a line of its own.
pub open spec fn listing(names: Seq<Seq<char>>) -> Seq<char>
    decreases names.len(),
{
    if names.len() == 0 {
        Seq::empty()
    } else {
        listing(names.drop_last()) + names.last() + "\n"@
    }
}

/// Writes the asset list as it is kept in its file: each name followed by
/// a newline, in the order given.
pub fn save_asset_names(asset_names: &Vec<String>) -> (text: String)
    ensures
        text@ == listing(texts(asset_names@)),
{
    let mut text = String::new();
    let n: usize = asset_names.len();
    let mut i: usize = 0;
    assert(texts(asset_names@).subrange(0, 0) =~= Seq::<Seq<char>>::empty());
    while i < n
        invariant
            i <= n,
            n == asset_names@.len(),
            text@ == listing(texts(asset_names@).subrange(0, i as int)),
        decreases n - i,
    {
        proof {
            let upto = texts(asset_names@).subrange(0, i + 1);
            assert(upto.drop_last() =~= texts(asset_names@).subrange(0, i as int));
            assert(upto.last() == asset_names@[i as int]@);
        }
        text.append(asset_names[i].as_str());
        text.append("\n");
        i = i + 1;
    }
    assert(texts(asset_names@).subrange(0, n as int) =~= texts(asset_names@));
    text
}

} // verus!
