//! The layout of a session on disk: where its directory lies, how chunk
//! files are named, and how a file name is read back as a chunk index.

use vstd::prelude::*;
use vstd::string::*;
use crate::text::{
    all_digits, append_zero_padded, chars_of, digits_value, ends_with, has_prefix, has_suffix,
    lemma_padded_from_digits, lemma_zero_padded_properties, parse_digits, starts_with,
    zero_padded,
};

verus! {

/// The directory of the session `session_id` below the data root:
/// `<root>/recordings/<session_id>`.
pub open spec fn session_directory(root: Seq<char>, session_id: Seq<char>) -> Seq<char> {
    root + "/recordings/"@ + session_id
}

/// The name of the chunk file with index `index`: `chunk_`, the index in
/// decimal with at least four digits, `.wav`.
pub open spec fn chunk_file_name(index: nat) -> Seq<char> {
    "chunk_"@ + zero_padded(index, 4) + ".wav"@
}

/// The path of the chunk file with index `index` in the directory `dir`.
pub open spec fn chunk_path(dir: Seq<char>, index: nat) -> Seq<char> {
    dir + "/"@ + chunk_file_name(index)
}

/// The name of the file that holds one source's part of chunk `index`;
/// `tag` names the source.
pub open spec fn separate_file_name(index: nat, tag: Seq<char>) -> Seq<char> {
    "chunk_"@ + zero_padded(index, 4) + "_"@ + tag + ".wav"@
}

/// The path of the final recording in the directory `dir`.
pub open spec fn final_path(dir: Seq<char>) -> Seq<char> {
    dir + "/final.wav"@
}

/// Names the directory of a session.
pub fn session_dir(root: &str, session_id: &str) -> (r: String)
    ensures
        r@ == session_directory(root@, session_id@),
{
    let mut out = String::from_str(root);
    out.append("/recordings/");
    out.append(session_id);
    out
}

/// Names the chunk file with index `index`.
pub fn chunk_name(index: u64) -> (r: String)
    ensures
        r@ == chunk_file_name(index as nat),
{
    let mut out = String::from_str("chunk_");
    append_zero_padded(&mut out, index, 4);
    out.append(".wav");
    out
}

/// Names the path of the chunk file with index `index` in `dir`.
pub fn chunk_file_path(dir: &str, index: u64) -> (r: String)
    ensures
        r@ == chunk_path(dir@, index as nat),
{
    let mut out = String::from_str(dir);
    out.append("/");
    let name = chunk_name(index);
    out.append(name.as_str());
    proof {
        assert(out@ =~= chunk_path(dir@, index as nat));
    }
    out
}

/// Names the path of the file that holds one source's part of chunk
/// `index`.
pub fn separate_file_path(dir: &str, index: u64, tag: &str) -> (r: String)
    ensures
        r@ == dir@ + "/"@ + separate_file_name(index as nat, tag@),
{
    let mut out = String::from_str(dir);
    out.append("/");
    out.append("chunk_");
    append_zero_padded(&mut out, index, 4);
    out.append("_");
    out.append(tag);
    out.append(".wav");
    proof {
        assert(out@ =~= dir@ + "/"@ + separate_file_name(index as nat, tag@));
    }
    out
}

/// Names the path of the final recording in `dir`.
pub fn final_file_path(dir: &str) -> (r: String)
    ensures
        r@ == final_path(dir@),
{
    let mut out = String::from_str(dir);
    out.append("/final.wav");
    out
}

/// Whether `name` is the name of a chunk file with an index that fits in 64
/// bits.
pub open spec fn is_chunk_file_name(name: Seq<char>) -> bool {
    exists|index: nat| index <= u64::MAX && name == #[trigger] chunk_file_name(index)
}

/// The part of a chunk file name between `chunk_` and `.wav`.
pub open spec fn index_part(name: Seq<char>) -> Seq<char> {
    name.subrange(6, name.len() - 4)
}

/// A chunk file name begins with `chunk_`, ends with `.wav`, and holds the
/// padded numeral of its index between the two.
pub proof fn lemma_chunk_name_shape(index: nat)
    ensures
        chunk_file_name(index).len() >= 14,
        has_prefix(chunk_file_name(index), "chunk_"@),
        has_suffix(chunk_file_name(index), ".wav"@),
        index_part(chunk_file_name(index)) == zero_padded(index, 4),
{
    reveal_strlit("chunk_");
    reveal_strlit(".wav");
    lemma_zero_padded_properties(index, 4);
    let name = chunk_file_name(index);
    let middle = zero_padded(index, 4);
    assert(name.len() == 6 + middle.len() + 4);
    assert(name.subrange(0, 6) =~= "chunk_"@);
    assert(name.subrange(name.len() - 4, name.len() as int) =~= ".wav"@);
    assert(name.subrange(6, name.len() - 4) =~= middle);
}

/// A name with the shape of a chunk file name whose middle is `middle` is
/// `chunk_`, then `middle`, then `.wav`.
pub proof fn lemma_name_from_parts(name: Seq<char>)
    requires
        name.len() >= 10,
        has_prefix(name, "chunk_"@),
        has_suffix(name, ".wav"@),
    ensures
        name == "chunk_"@ + index_part(name) + ".wav"@,
{
    reveal_strlit("chunk_");
    reveal_strlit(".wav");
    let rebuilt = "chunk_"@ + index_part(name) + ".wav"@;
    assert(rebuilt.len() == name.len());
    assert forall|i: int| 0 <= i < name.len() implies name[i] == rebuilt[i] by {
        if i < 6 {
            assert(name.subrange(0, 6)[i] == name[i]);
        } else if i < name.len() - 4 {
            assert(index_part(name)[i - 6] == name[i]);
        } else {
            assert(name.subrange(name.len() - 4, name.len() as int)[i - (name.len() - 4)]
                == name[i]);
        }
    }
    assert(name =~= rebuilt);
}

/// Different indices have different file names, so that a name determines
/// its index.
pub proof fn lemma_chunk_name_injective(a: nat, b: nat)
    requires
        chunk_file_name(a) == chunk_file_name(b),
    ensures
        a == b,
{
    lemma_chunk_name_shape(a);
    lemma_chunk_name_shape(b);
    lemma_zero_padded_properties(a, 4);
    lemma_zero_padded_properties(b, 4);
}

/// Reads a file name as a chunk index. The result is `Some(i)` exactly
/// when `name` is the name that `chunk_name` gives to `i`; every other name,
/// and so every file that is no chunk of the session, gives `None`.
pub fn parse_chunk_index(name: &str) -> (r: Option<u64>)
    ensures
        r matches Some(i) ==> name@ == chunk_file_name(i as nat),
        r is None ==> !is_chunk_file_name(name@),
{
    let chars = chars_of(name);
    let prefix = chars_of("chunk_");
    let suffix = chars_of(".wav");
    proof {
        reveal_strlit("chunk_");
        reveal_strlit(".wav");
        assert forall|index: nat| name@ == #[trigger] chunk_file_name(index) implies name@.len()
            >= 14 && has_prefix(name@, "chunk_"@) && has_suffix(name@, ".wav"@) && index_part(name@)
            == zero_padded(index, 4) && all_digits(zero_padded(index, 4)) && digits_value(
            zero_padded(index, 4),
        ) == index && (zero_padded(index, 4).len() > 4 ==> zero_padded(index, 4)[0] != '0') by {
            lemma_chunk_name_shape(index);
            lemma_zero_padded_properties(index, 4);
        }
    }
    if chars.len() < 14 {
        return None;
    }
    if !starts_with(&chars, &prefix) {
        return None;
    }
    if !ends_with(&chars, &suffix) {
        return None;
    }
    let from: usize = 6;
    let to: usize = chars.len() - 4;
    let ghost middle = chars@.subrange(from as int, to as int);
    proof {
        assert(middle == index_part(name@));
    }
    if to - from > 4 && chars[from] == '0' {
        proof {
            assert(middle[0] == chars@[6]);
        }
        return None;
    }
    match parse_digits(&chars, from, to) {
        Some(v) => {
            proof {
                if middle.len() > 4 {
                    assert(middle[0] == chars@[6]);
                }
                lemma_padded_from_digits(middle, 4);
                lemma_name_from_parts(name@);
            }
            Some(v)
        },
        None => None,
    }
}

/// What `chunk_name` writes, `parse_chunk_index` reads back.
pub proof fn lemma_chunk_name_round_trip(index: nat, parsed: Option<u64>)
    requires
        index <= u64::MAX,
        parsed matches Some(i) ==> chunk_file_name(index) == chunk_file_name(i as nat),
        parsed is None ==> !is_chunk_file_name(chunk_file_name(index)),
    ensures
        parsed == Some(index as u64),
{
    match parsed {
        Some(i) => {
            lemma_chunk_name_injective(index, i as nat);
        },
        None => {
            assert(chunk_file_name(index) == chunk_file_name(index));
        },
    }
}

/// Every chunk file of a session lies in the directory of that session:
/// its path begins with the directory.
pub proof fn lemma_chunk_lies_in_directory(dir: Seq<char>, index: nat)
    ensures
        has_prefix(chunk_path(dir, index), dir),
{
    assert(chunk_path(dir, index).subrange(0, dir.len() as int) =~= dir);
}

} // verus!
