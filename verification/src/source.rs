//! What the name of a watched file says: whether it is a log file, and the
//! number of the source it belongs to.

use vstd::prelude::*;
use crate::numbers::{parse_unsigned, unsigned_in_radix};
use crate::text::{find_last, last_index_of, lemma_last_index_of, to_chars};

verus! {

/// Where a file name parts into stem and extension: at its last dot, unless
/// that dot leads the name or the name is `..`. -1 where it does not part.
pub open spec fn parting_dot(name: Seq<char>) -> int {
    let dot = last_index_of(name, '.');
    if dot > 0 && !(name.len() == 2 && name[0] == '.') {
        dot
    } else {
        -1
    }
}

/// The name without its extension.
pub open spec fn stem_of(name: Seq<char>) -> Seq<char> {
    if parting_dot(name) >= 0 {
        name.take(parting_dot(name))
    } else {
        name
    }
}

/// The extension of the name, without the dot.
pub open spec fn extension_of(name: Seq<char>) -> Option<Seq<char>> {
    if parting_dot(name) >= 0 {
        Some(name.skip(parting_dot(name) + 1))
    } else {
        None
    }
}

/// The file is a log file: its extension is `log`.
pub open spec fn is_log_name(name: Seq<char>) -> bool {
    extension_of(name) == Some(seq!['l', 'o', 'g'])
}

/// The number of the source that the file belongs to: its stem read as a
/// decimal number. `None` where the stem is no such number.
pub open spec fn source_id_of(name: Seq<char>) -> Option<u32> {
    unsigned_in_radix(stem_of(name), 10)
}

/// Finds where the name parts into stem and extension.
fn find_parting_dot(chars: &Vec<char>) -> (dot: Option<usize>)
    ensures
        match dot {
            Some(at) => at == parting_dot(chars@) && 0 < at < chars@.len(),
            None => parting_dot(chars@) == -1,
        },
{
    let n: usize = chars.len();
    proof {
        assert(chars@.take(n as int) =~= chars@);
        lemma_last_index_of(chars@, '.');
    }
    match find_last(chars, n, '.') {
        Some(at) => {
            if at > 0 && !(n == 2 && chars[0] == '.') {
                Some(at)
            } else {
                None
            }
        },
        None => None,
    }
}

/// Whether a file of this name is a log file.
pub fn is_log_file(file_name: &str) -> (yes: bool)
    ensures
        yes == is_log_name(file_name@),
{
    let chars = to_chars(file_name);
    match find_parting_dot(&chars) {
        Some(at) => {
            let n: usize = chars.len();
            let ghost extension = chars@.skip(at + 1);
            if n - at - 1 == 3 {
                let yes = chars[at + 1] == 'l' && chars[at + 2] == 'o' && chars[at + 3] == 'g';
                proof {
                    assert(extension[0] == chars@[at + 1]);
                    assert(extension[1] == chars@[at + 2]);
                    assert(extension[2] == chars@[at + 3]);
                    if yes {
                        assert(extension =~= seq!['l', 'o', 'g']);
                    }
                }
                yes
            } else {
                assert(extension.len() != 3);
                false
            }
        },
        None => false,
    }
}

/// The number of the source that a file of this name belongs to.
pub fn source_id(file_name: &str) -> (id: Option<u32>)
    ensures
        id == source_id_of(file_name@),
{
    let chars = to_chars(file_name);
    let end: usize = match find_parting_dot(&chars) {
        Some(at) => at,
        None => chars.len(),
    };
    proof {
        assert(chars@.subrange(0, end as int) =~= stem_of(chars@));
    }
    parse_unsigned(&chars, 0, end, 10)
}

} // verus!
