//! The presentation order of directory listings.
//!
//! Listings are shown with every directory before every file and, inside
//! each group, in case-insensitive lexicographic order of the name. The
//! case folding is the Unicode lowercase mapping; names are compared by
//! the UTF-8 bytes of their lowercased forms, which is the order
//! `String` comparison gives.

use vstd::prelude::*;
use vstd::seq_lib::group_to_multiset_ensures;
use vstd::multiset::group_multiset_axioms;

use crate::listing::RemoteEntryView;
use crate::listing::RemoteFileEntry;
use crate::listing::parse_lines;
use crate::listing::parsed_views;
use crate::text::bytes_le;
use crate::text::lemma_lex_total;
use crate::text::lemma_lex_trans;
use crate::text::lex_le;

verus! {

/// The UTF-8 bytes of the Unicode-lowercased form of a string: the
/// case-insensitive sort key of a name.
pub uninterp spec fn lower_of(s: Seq<char>) -> Seq<u8>;

/// Relies on `str::to_lowercase`: the Unicode lowercase mapping of the
/// string, a function of the characters alone; `into_bytes` converts
/// the result to its UTF-8 bytes.
#[verifier::external_body]
fn lower_key(s: &str) -> (r: Vec<u8>)
    ensures
        r@ == lower_of(s@),
{
    s.to_lowercase().into_bytes()
}

/// The listing order: directories before files, then case-insensitive
/// lexicographic by name.
pub open spec fn entry_le(a: RemoteEntryView, b: RemoteEntryView) -> bool {
    if a.is_dir != b.is_dir {
        a.is_dir
    } else {
        lex_le(lower_of(a.name), lower_of(b.name))
    }
}

/// Any two entries compare one way or the other.
pub proof fn lemma_entry_le_total(a: RemoteEntryView, b: RemoteEntryView)
    ensures
        entry_le(a, b) || entry_le(b, a),
{
    lemma_lex_total(lower_of(a.name), lower_of(b.name));
}

/// The listing order is transitive.
pub proof fn lemma_entry_le_trans(a: RemoteEntryView, b: RemoteEntryView, c: RemoteEntryView)
    requires
        entry_le(a, b),
        entry_le(b, c),
    ensures
        entry_le(a, c),
{
    if a.is_dir == b.is_dir && b.is_dir == c.is_dir {
        lemma_lex_trans(lower_of(a.name), lower_of(b.name), lower_of(c.name));
    }
}

fn entry_le_exec(a: &RemoteFileEntry, b: &RemoteFileEntry) -> (r: bool)
    ensures
        r == entry_le(a@, b@),
{
    if a.is_dir != b.is_dir {
        a.is_dir
    } else {
        let ka = lower_key(a.name.as_str());
        let kb = lower_key(b.name.as_str());
        bytes_le(&ka, &kb)
    }
}

/// The views of a run of entries.
pub open spec fn views_of(s: Seq<RemoteFileEntry>) -> Seq<RemoteEntryView> {
    s.map_values(|e: RemoteFileEntry| e@)
}

/// A run of entries in listing order.
pub open spec fn entries_sorted(s: Seq<RemoteFileEntry>) -> bool {
    forall|i: int, j: int| 0 <= i < j < s.len() ==> entry_le(s[i]@, s[j]@)
}

/// Sort entries into listing order. The entries themselves are only
/// rearranged: their multiset is unchanged.
pub fn sort_entries(v: &mut Vec<RemoteFileEntry>)
    ensures
        views_of(final(v)@).to_multiset() == views_of(old(v)@).to_multiset(),
        entries_sorted(final(v)@),
{
    broadcast use group_to_multiset_ensures;
    broadcast use group_multiset_axioms;

    let ghost ms = views_of(v@).to_multiset();
    if v.len() <= 1 {
        return ;
    }
    let mut i: usize = 1;
    while i < v.len()
        invariant
            1 <= i <= v@.len(),
            views_of(v@).to_multiset() == ms,
            forall|a: int, b: int| 0 <= a < b < i ==> entry_le(v@[a]@, v@[b]@),
        decreases v@.len() - i,
    {
        let ghost pre = v@;
        let mut p: usize = i;
        while p > 0 && !entry_le_exec(&v[p - 1], &v[i])
            invariant
                0 <= p <= i < v@.len(),
                v@ == pre,
                forall|q: int| p <= q < i ==> entry_le(v@[i as int]@, #[trigger] v@[q]@),
            decreases p,
        {
            proof {
                lemma_entry_le_total(v@[p - 1]@, v@[i as int]@);
            }
            p = p - 1;
        }
        let ghost x = v@[i as int];
        proof {
            broadcast use group_to_multiset_ensures;
            broadcast use group_multiset_axioms;

            assert(views_of(v@).to_multiset().count(x@) > 0) by {
                assert(views_of(v@)[i as int] == x@);
                assert(views_of(v@).contains(x@));
            }
        }
        let moved = v.remove(i);
        proof {
            assert(views_of(v@) =~= views_of(pre).remove(i as int));
        }
        v.insert(p, moved);
        proof {
            broadcast use group_to_multiset_ensures;
            broadcast use group_multiset_axioms;

            assert(views_of(v@) =~= views_of(pre).remove(i as int).insert(p as int, x@));
            assert(views_of(pre).remove(i as int).to_multiset() == views_of(
                pre,
            ).to_multiset().remove(x@));
            assert(views_of(v@).to_multiset() == views_of(pre).to_multiset().remove(x@).insert(
                x@,
            ));
            assert(views_of(v@).to_multiset() =~= views_of(pre).to_multiset());
            // the new arrangement: pre[0..p], x, pre[p..i], pre[i+1..]
            assert(forall|k: int| 0 <= k < p ==> v@[k] == pre[k]);
            assert(v@[p as int] == x);
            assert(forall|k: int| p < k <= i ==> v@[k] == pre[k - 1]);
            assert forall|a: int, b: int| 0 <= a < b < i + 1 implies entry_le(v@[a]@, v@[b]@) by {
                if b < p {
                    // both in the untouched sorted prefix
                } else if b == p {
                    // a < p: prefix element against the inserted one
                    assert(p > 0 && entry_le(pre[p - 1]@, x@));
                    if a < p - 1 {
                        lemma_entry_le_trans(pre[a]@, pre[p - 1]@, x@);
                    }
                } else if a == p {
                    // the inserted one against a shifted element
                    assert(entry_le(x@, pre[b - 1]@));
                } else if a < p {
                    // prefix element against a shifted element
                    assert(v@[b] == pre[b - 1]);
                    assert(entry_le(pre[a]@, pre[b - 1]@));
                } else {
                    // both shifted: a sorted pair of the old prefix
                    assert(entry_le(pre[a - 1]@, pre[b - 1]@));
                }
            }
        }
        i = i + 1;
    }
}

/// Build the presented listing from raw listing lines: parse every
/// line, drop the rejected ones, and sort into listing order. The
/// result holds exactly the parsed entries.
pub fn listed_entries(lines: &Vec<String>) -> (r: Vec<RemoteFileEntry>)
    ensures
        views_of(r@).to_multiset() == parsed_views(lines@.map_values(|l: String| l@)).to_multiset(),
        entries_sorted(r@),
{
    let mut entries = parse_lines(lines);
    sort_entries(&mut entries);
    entries
}

/// In a run in listing order, every directory precedes every file.
pub proof fn lemma_sorted_dirs_first(s: Seq<RemoteFileEntry>)
    requires
        entries_sorted(s),
    ensures
        forall|i: int, j: int| 0 <= i < j < s.len() && s[j]@.is_dir ==> s[i]@.is_dir,
{
    assert forall|i: int, j: int| 0 <= i < j < s.len() && s[j]@.is_dir implies s[i]@.is_dir by {
        assert(entry_le(s[i]@, s[j]@));
    }
}

/// In a run in listing order, names inside one group — directories
/// among directories, files among files — stand in case-insensitive
/// lexicographic order.
pub proof fn lemma_sorted_within_group(s: Seq<RemoteFileEntry>)
    requires
        entries_sorted(s),
    ensures
        forall|i: int, j: int|
            0 <= i < j < s.len() && s[i]@.is_dir == s[j]@.is_dir ==> lex_le(
                lower_of(s[i]@.name),
                lower_of(s[j]@.name),
            ),
{
    assert forall|i: int, j: int|
        0 <= i < j < s.len() && s[i]@.is_dir == s[j]@.is_dir implies lex_le(
        lower_of(s[i]@.name),
        lower_of(s[j]@.name),
    ) by {
        assert(entry_le(s[i]@, s[j]@));
    }
}

} // verus!
