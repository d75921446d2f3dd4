//! The line scanner: splits one trimmed line of listing text into a key and
//! a value at the first `:` or `=`, with an optional leading `*` marker.

use vstd::prelude::*;
use vstd::string::*;

use crate::text::{find_class, find_from, lemma_find_class_sub, trim_spec, trim_str, CharClass};

verus! {

/// The mathematical result of scanning one line.
#[verifier::ext_equal]
pub ghost struct ScanView {
    pub key: Seq<char>,
    pub value: Seq<char>,
    pub starred: bool,
}

/// Scanning splits at the first separator; the key is the text before it,
/// stripped of a leading `*` marker and surrounding whitespace, and the
/// value is the text after it, stripped of surrounding whitespace. Lines
/// with no separator, or with nothing left of it, yield no match.
pub open spec fn scan_spec(line: Seq<char>) -> Option<ScanView> {
    let i = find_class(line, CharClass::Sep);
    if i < 0 {
        None
    } else {
        let left = trim_spec(line.subrange(0, i));
        let value = trim_spec(line.subrange(i + 1, line.len() as int));
        if left.len() > 0 && left[0] == '*' {
            let key = trim_spec(left.drop_first());
            if key.len() == 0 {
                None
            } else {
                Some(ScanView { key, value, starred: true })
            }
        } else {
            if left.len() == 0 {
                None
            } else {
                Some(ScanView { key: left, value, starred: false })
            }
        }
    }
}

/// One scanned key/value pair.
pub struct ScannedLine {
    pub key: String,
    pub value: String,
    pub starred: bool,
}

/// Scans one line for a `key: value` or `key = value` pair.
pub fn scan_line(line: &str) -> (r: Option<ScannedLine>)
    ensures
        match r {
            Some(sl) => scan_spec(line@) == Some(
                ScanView { key: sl.key@, value: sl.value@, starred: sl.starred },
            ),
            None => scan_spec(line@) is None,
        },
{
    let n = line.unicode_len();
    let sep = find_from(line, 0, CharClass::Sep);
    proof {
        assert(line@.subrange(0, n as int) =~= line@);
        lemma_find_class_sub(line@, 0, n as int, CharClass::Sep, sep);
    }
    match sep {
        None => None,
        Some(i) => {
            let left = trim_str(line.substring_char(0, i));
            let value = trim_str(line.substring_char(i + 1, n)).to_owned();
            let ln = left.unicode_len();
            if ln > 0 && left.get_char(0) == '*' {
                proof {
                    assert(left@.drop_first() =~= left@.subrange(1, ln as int));
                }
                let key = trim_str(left.substring_char(1, ln)).to_owned();
                if key.unicode_len() == 0 {
                    None
                } else {
                    Some(ScannedLine { key, value, starred: true })
                }
            } else if ln == 0 {
                None
            } else {
                Some(ScannedLine { key: left.to_owned(), value, starred: false })
            }
        },
    }
}

} // verus!
