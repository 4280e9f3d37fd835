//! Manifest parsing: turning checksum-list text into an ordered work list.
//!
//! A line is accepted when it starts with exactly 32 lowercase hexadecimal
//! characters followed by a space; an optional `*` after the space (the
//! conventional binary-mode marker) is not part of the path.  Every other
//! line is skipped silently, which tolerates headers and comments of common
//! manifest dialects.  A manifest in which no line is accepted is reported as
//! empty.

use vstd::prelude::*;

use crate::hash_pair::{HashPair, HashPairModel};
use crate::is_lower_hex_digit;

verus! {

/// Parsing fails only when no line of the manifest matches the pattern.
#[derive(Debug, Clone, Copy, PartialEq, Eq, Structural)]
pub enum ManifestError {
    Empty,
}

/// Text split at `'\n'`, accumulating the current unfinished line in `cur`;
/// an empty final fragment is not a line.
pub open spec fn split_lines_rec(s: Seq<char>, cur: Seq<char>) -> Seq<Seq<char>>
    decreases s.len(),
{
    if s.len() == 0 {
        if cur.len() == 0 {
            Seq::empty()
        } else {
            seq![cur]
        }
    } else if s[0] == '\n' {
        seq![cur] + split_lines_rec(s.drop_first(), Seq::empty())
    } else {
        split_lines_rec(s.drop_first(), cur.push(s[0]))
    }
}

/// The lines of a manifest text, in file order.
pub open spec fn lines_of(s: Seq<char>) -> Seq<Seq<char>> {
    split_lines_rec(s, Seq::empty())
}

/// A line with a trailing carriage return, as manifests written on other
/// platforms carry, is read without it.
pub open spec fn strip_cr(l: Seq<char>) -> Seq<char> {
    if l.len() > 0 && l[l.len() - 1] == '\r' {
        l.drop_last()
    } else {
        l
    }
}

/// Whether a (carriage-return-stripped) line matches the manifest entry
/// pattern: 32 lowercase hexadecimal characters, then a space, then the rest.
pub open spec fn line_matches(l: Seq<char>) -> bool {
    &&& l.len() >= 33
    &&& l[32] == ' '
    &&& forall|i: int| 0 <= i < 32 ==> is_lower_hex_digit(#[trigger] l[i])
}

/// The path carried by a matching line: everything after the separator, with
/// one leading `*` marker dropped if present.
pub open spec fn line_path(l: Seq<char>) -> Seq<char> {
    if l.len() >= 34 && l[33] == '*' {
        l.skip(34)
    } else {
        l.skip(33)
    }
}

/// The work item a matching line denotes.
pub open spec fn line_item(l: Seq<char>) -> HashPairModel {
    HashPairModel { file_path: line_path(l), expected_hash: l.take(32) }
}

/// The work items of a list of raw lines: exactly the matching lines, in
/// order.
pub open spec fn items_of_lines(ls: Seq<Seq<char>>) -> Seq<HashPairModel>
    decreases ls.len(),
{
    if ls.len() == 0 {
        Seq::empty()
    } else {
        items_of_lines(ls.drop_last()) + if line_matches(strip_cr(ls.last())) {
            seq![line_item(strip_cr(ls.last()))]
        } else {
            Seq::empty()
        }
    }
}

/// The work items of a whole manifest text.
pub open spec fn manifest_items(s: Seq<char>) -> Seq<HashPairModel> {
    items_of_lines(lines_of(s))
}

/// Split manifest text into its lines, as `lines_of` describes them.
fn split_into_lines(s: &str) -> (r: Vec<String>)
    ensures
        r.deep_view() == lines_of(s@),
{
    let n = s.unicode_len();
    let mut lines: Vec<String> = Vec::new();
    let mut start: usize = 0;
    let mut i: usize = 0;
    proof {
        assert(s@.skip(0) =~= s@);
        assert(s@.subrange(0, 0) =~= Seq::<char>::empty());
    }
    while i < n
        invariant
            start <= i <= n,
            n == s@.len(),
            lines.deep_view() + split_lines_rec(
                s@.skip(i as int),
                s@.subrange(start as int, i as int),
            ) == lines_of(s@),
        decreases n - i,
    {
        let ghost cur = s@.subrange(start as int, i as int);
        let c = s.get_char(i);
        proof {
            assert(s@.skip(i as int)[0] == s@[i as int]);
            assert(s@.skip(i as int).drop_first() =~= s@.skip(i + 1));
        }
        if c == '\n' {
            let line = s.substring_char(start, i).to_owned();
            let ghost old_lines = lines.deep_view();
            lines.push(line);
            proof {
                assert(lines.deep_view() =~= old_lines.push(cur));
                assert(s@.subrange(i + 1, i + 1) =~= Seq::<char>::empty());
                assert(old_lines.push(cur) + split_lines_rec(s@.skip(i + 1), Seq::empty())
                    =~= old_lines + (seq![cur] + split_lines_rec(s@.skip(i + 1), Seq::empty())));
            }
            start = i + 1;
        } else {
            proof {
                assert(s@.subrange(start as int, i + 1) =~= cur.push(s@[i as int]));
            }
        }
        i = i + 1;
    }
    let ghost cur = s@.subrange(start as int, n as int);
    if start < n {
        let line = s.substring_char(start, n).to_owned();
        let ghost old_lines = lines.deep_view();
        lines.push(line);
        proof {
            assert(lines.deep_view() =~= old_lines.push(cur));
            assert(old_lines.push(cur) =~= old_lines + seq![cur]);
        }
    }
    lines
}

/// Read one raw manifest line; a work item when it matches the entry
/// pattern, nothing when it does not.
fn parse_line(line: &str) -> (r: Option<HashPair>)
    ensures
        match r {
            Some(p) => line_matches(strip_cr(line@)) && p@ == line_item(strip_cr(line@)),
            None => !line_matches(strip_cr(line@)),
        },
{
    let ghost stripped = strip_cr(line@);
    let n = line.unicode_len();
    let m: usize = if n > 0 && line.get_char(n - 1) == '\r' {
        n - 1
    } else {
        n
    };
    proof {
        assert(stripped =~= line@.take(m as int));
    }
    if m < 33 {
        return None;
    }
    let mut i: usize = 0;
    while i < 32
        invariant
            i <= 32,
            33 <= m <= n,
            n == line@.len(),
            stripped == line@.take(m as int),
            forall|j: int| 0 <= j < i ==> is_lower_hex_digit(#[trigger] stripped[j]),
        decreases 32 - i,
    {
        let c = line.get_char(i);
        let cu = c as u32;
        if !((48 <= cu && cu <= 57) || (97 <= cu && cu <= 102)) {
            proof {
                assert(stripped[i as int] == line@[i as int]);
                assert(!is_lower_hex_digit(stripped[i as int]));
            }
            return None;
        }
        proof {
            assert(stripped[i as int] == line@[i as int]);
            assert(is_lower_hex_digit(stripped[i as int]));
        }
        i = i + 1;
    }
    if line.get_char(32) != ' ' {
        proof {
            assert(stripped[32] == line@[32]);
        }
        return None;
    }
    let hash = line.substring_char(0, 32).to_owned();
    proof {
        assert(hash@ =~= stripped.take(32));
    }
    let path_start: usize = if m >= 34 && line.get_char(33) == '*' {
        34
    } else {
        33
    };
    proof {
        if m >= 34 {
            assert(stripped[33] == line@[33]);
        }
    }
    let path = line.substring_char(path_start, m).to_owned();
    proof {
        assert(path@ =~= line_path(stripped));
    }
    Some(HashPair::new(path, hash))
}

/// Parse manifest text into the ordered work list of its matching lines.
///
/// Every line matching the entry pattern yields one work item, in file
/// order; every other line is skipped.  A manifest with no matching line is
/// refused as empty, before any run starts.
pub fn hash_list_parser(content: &str) -> (r: Result<Vec<HashPair>, ManifestError>)
    ensures
        match r {
            Ok(v) => v.deep_view() == manifest_items(content@) && v@.len() > 0,
            Err(e) => e == ManifestError::Empty && manifest_items(content@).len() == 0,
        },
{
    let lines = split_into_lines(content);
    let mut items: Vec<HashPair> = Vec::new();
    let mut i: usize = 0;
    proof {
        assert(lines.deep_view().take(0) =~= Seq::<Seq<char>>::empty());
    }
    while i < lines.len()
        invariant
            i <= lines@.len(),
            lines.deep_view() == lines_of(content@),
            items.deep_view() == items_of_lines(lines.deep_view().take(i as int)),
        decreases lines@.len() - i,
    {
        let ghost prefix = lines.deep_view().take(i as int);
        let ghost old_items = items.deep_view();
        match parse_line(lines[i].as_str()) {
            Some(p) => {
                items.push(p);
                proof {
                    assert(items.deep_view() =~= old_items.push(p@));
                    assert(old_items.push(p@) =~= old_items + seq![p@]);
                }
            },
            None => {},
        }
        proof {
            let next = lines.deep_view().take(i + 1);
            assert(next.drop_last() =~= prefix);
            assert(next.last() == lines.deep_view()[i as int]);
            assert(lines.deep_view()[i as int] == lines@[i as int]@);
            if !line_matches(strip_cr(next.last())) {
                assert(old_items + Seq::<HashPairModel>::empty() =~= old_items);
            }
        }
        i = i + 1;
    }
    proof {
        assert(lines.deep_view().take(lines@.len() as int) =~= lines.deep_view());
    }
    if items.len() == 0 {
        Err(ManifestError::Empty)
    } else {
        Ok(items)
    }
}

} // verus!
