//! The directory-listing parser.
//!
//! One line of UNIX `ls -l`-style listing output either yields a
//! `RemoteFileEntry` or is rejected. The rule: split on whitespace;
//! fewer than nine tokens is no entry; the first token is the opaque
//! permission string (a leading `d` marks a directory); the fifth
//! parses as the size, zero when it does not parse; tokens six to
//! eight, joined by single spaces, form the opaque modified-date
//! fragment; the remaining tokens, joined by single spaces, form the
//! name. Entries named `.` or `..` are discarded.

use vstd::prelude::*;
use vstd::string::StrSliceExecFns;
use vstd::string::StringExecFns;

use crate::text::dec_value;
use crate::text::tokens_of;
use crate::text::u64_body;
use crate::text::u64_str_valid;
use crate::text::lemma_tokens_nonempty;
use crate::text::parse_u64;
use crate::text::tokenize;

verus! {

/// One parsed line of a remote directory listing.
#[derive(Debug, Clone)]
pub struct RemoteFileEntry {
    pub name: String,
    pub is_dir: bool,
    pub size: u64,
    pub permissions: String,
    pub modified: String,
}

/// The mathematical image of a `RemoteFileEntry`.
pub ghost struct RemoteEntryView {
    pub name: Seq<char>,
    pub is_dir: bool,
    pub size: u64,
    pub permissions: Seq<char>,
    pub modified: Seq<char>,
}

impl View for RemoteFileEntry {
    type V = RemoteEntryView;

    open spec fn view(&self) -> RemoteEntryView {
        RemoteEntryView {
            name: self.name@,
            is_dir: self.is_dir,
            size: self.size,
            permissions: self.permissions@,
            modified: self.modified@,
        }
    }
}

/// Tokens joined by single spaces.
pub open spec fn join_spc(toks: Seq<Seq<char>>) -> Seq<char>
    decreases toks.len(),
{
    if toks.len() == 0 {
        Seq::empty()
    } else if toks.len() == 1 {
        toks[0]
    } else {
        toks[0] + seq![' '] + join_spc(toks.drop_first())
    }
}

/// Joining one more token appends a space and the token.
proof fn lemma_join_push(s: Seq<Seq<char>>, t: Seq<char>)
    ensures
        s.len() == 0 ==> join_spc(s.push(t)) == t,
        s.len() > 0 ==> join_spc(s.push(t)) == join_spc(s) + seq![' '] + t,
    decreases s.len(),
{
    if s.len() == 0 {
        assert(s.push(t)[0] == t);
        assert(join_spc(s.push(t)) == t);
    } else if s.len() == 1 {
        assert(s.push(t)[0] == s[0]);
        assert(s.push(t).drop_first() =~= seq![t]);
        assert(seq![t].len() == 1 && seq![t][0] == t);
        assert(join_spc(seq![t]) == t);
        assert(join_spc(s.push(t)) == s[0] + seq![' '] + t);
        assert(join_spc(s) == s[0]);
    } else {
        lemma_join_push(s.drop_first(), t);
        assert(s.push(t).drop_first() =~= s.drop_first().push(t));
        assert(join_spc(s.push(t)) == s[0] + seq![' '] + (join_spc(s.drop_first()) + seq![' ']
            + t));
        assert(s[0] + seq![' '] + (join_spc(s.drop_first()) + seq![' '] + t) =~= (s[0] + seq![' ']
            + join_spc(s.drop_first())) + seq![' '] + t);
    }
}

/// The size field of a listing line: the parsed value of the token, or
/// zero when the token is not a valid number.
pub open spec fn size_of_token(t: Seq<char>) -> u64 {
    if u64_str_valid(t) {
        dec_value(u64_body(t)) as u64
    } else {
        0
    }
}

/// What one listing line means: `None` for a short line or a `.`/`..`
/// entry, otherwise the parsed entry.
pub open spec fn parse_spec(line: Seq<char>) -> Option<RemoteEntryView> {
    let toks = tokens_of(line);
    if toks.len() < 9 {
        None
    } else {
        let nm = join_spc(toks.skip(8));
        if nm == seq!['.'] || nm == seq!['.', '.'] {
            None
        } else {
            Some(
                RemoteEntryView {
                    name: nm,
                    is_dir: toks[0].len() > 0 && toks[0][0] == 'd',
                    size: size_of_token(toks[4]),
                    permissions: toks[0],
                    modified: toks[5] + seq![' '] + toks[6] + seq![' '] + toks[7],
                },
            )
        }
    }
}

/// Parse one line of a UNIX-style directory listing.
pub fn parse_list_line(line: &str) -> (r: Option<RemoteFileEntry>)
    ensures
        r is Some <==> parse_spec(line@) is Some,
        r matches Some(e) ==> Some(e@) == parse_spec(line@),
{
    let toks = tokenize(line);
    let ghost tv = toks@.map_values(|t: &str| t@);
    if toks.len() < 9 {
        return None;
    }
    let perms = toks[0];
    let is_dir = perms.unicode_len() > 0 && perms.get_char(0) == 'd';
    let size = match parse_u64(toks[4]) {
        Some(v) => v,
        None => 0,
    };
    proof {
        reveal_strlit(" ");
    }
    let mut modified = toks[5].to_owned();
    modified.append(" ");
    modified.append(toks[6]);
    modified.append(" ");
    modified.append(toks[7]);
    proof {
        assert(modified@ =~= tv[5] + seq![' '] + tv[6] + seq![' '] + tv[7]);
    }
    let mut name = toks[8].to_owned();
    let mut i: usize = 9;
    proof {
        assert(tv.skip(8).take(1) =~= seq![tv[8]]);
        assert(join_spc(tv.skip(8).take(1)) == tv[8]);
    }
    while i < toks.len()
        invariant
            9 <= i <= toks@.len(),
            tv == toks@.map_values(|t: &str| t@),
            tv.len() == toks@.len(),
            name@ == join_spc(tv.skip(8).take(i - 8)),
        decreases toks@.len() - i,
    {
        proof {
            reveal_strlit(" ");
            lemma_join_push(tv.skip(8).take(i - 8), tv[i as int]);
            assert(tv.skip(8).take(i - 8).push(tv[i as int]) =~= tv.skip(8).take(i - 8 + 1));
            assert(tv.skip(8).take(i - 8).len() > 0);
        }
        name.append(" ");
        name.append(toks[i]);
        i = i + 1;
    }
    proof {
        assert(tv.skip(8).take(tv.len() - 8) =~= tv.skip(8));
    }
    let dot = String::from_str(".");
    let dotdot = String::from_str("..");
    proof {
        reveal_strlit(".");
        reveal_strlit("..");
        assert(dot@ =~= seq!['.']);
        assert(dotdot@ =~= seq!['.', '.']);
    }
    if name == dot || name == dotdot {
        return None;
    }
    let perms_string = perms.to_owned();
    Some(
        RemoteFileEntry {
            name,
            is_dir,
            size,
            permissions: perms_string,
            modified,
        },
    )
}

/// The entries of a listing: each line mapped through the parser, with
/// rejected lines dropped, in listing order.
pub open spec fn parsed_views(lines: Seq<Seq<char>>) -> Seq<RemoteEntryView>
    decreases lines.len(),
{
    if lines.len() == 0 {
        Seq::empty()
    } else {
        let rest = parsed_views(lines.drop_first());
        match parse_spec(lines[0]) {
            Some(e) => seq![e] + rest,
            None => rest,
        }
    }
}

/// One more line extends the parsed entries at the end.
proof fn lemma_parsed_views_push(s: Seq<Seq<char>>, l: Seq<char>)
    ensures
        parse_spec(l) matches Some(e) ==> parsed_views(s.push(l)) == parsed_views(s).push(e),
        parse_spec(l) is None ==> parsed_views(s.push(l)) == parsed_views(s),
    decreases s.len(),
{
    if s.len() == 0 {
        assert(s.push(l)[0] == l);
        assert(s.push(l).drop_first() =~= Seq::<Seq<char>>::empty());
        let rest = parsed_views(s.push(l).drop_first());
        assert(rest == parsed_views(Seq::<Seq<char>>::empty()));
        assert(rest.len() == 0);
        assert(parsed_views(s).len() == 0);
        match parse_spec(l) {
            Some(e) => {
                assert(parsed_views(s.push(l)) == seq![e] + rest);
                assert(seq![e] + rest =~= parsed_views(s).push(e));
            },
            None => {
                assert(parsed_views(s.push(l)) == rest);
                assert(rest =~= parsed_views(s));
            },
        }
    } else {
        lemma_parsed_views_push(s.drop_first(), l);
        assert(s.push(l).drop_first() =~= s.drop_first().push(l));
        assert(s.push(l)[0] == s[0]);
        let rest = parsed_views(s.drop_first().push(l));
        assert(parsed_views(s.push(l).drop_first()) == rest);
        match parse_spec(l) {
            Some(e) => {
                assert(rest == parsed_views(s.drop_first()).push(e));
                match parse_spec(s[0]) {
                    Some(e0) => {
                        assert(parsed_views(s.push(l)) == seq![e0] + rest);
                        assert(parsed_views(s) == seq![e0] + parsed_views(s.drop_first()));
                        assert(seq![e0] + parsed_views(s.drop_first()).push(e) =~= (seq![e0]
                            + parsed_views(s.drop_first())).push(e));
                    },
                    None => {
                        assert(parsed_views(s.push(l)) == rest);
                        assert(parsed_views(s) == parsed_views(s.drop_first()));
                    },
                }
            },
            None => {
                assert(rest == parsed_views(s.drop_first()));
                match parse_spec(s[0]) {
                    Some(e0) => {
                        assert(parsed_views(s.push(l)) == seq![e0] + rest);
                        assert(parsed_views(s) == seq![e0] + parsed_views(s.drop_first()));
                    },
                    None => {
                        assert(parsed_views(s.push(l)) == rest);
                        assert(parsed_views(s) == parsed_views(s.drop_first()));
                    },
                }
            },
        }
    }
}

/// Map every line of a raw listing through the parser, keeping the
/// order of the listing and dropping rejected lines.
pub fn parse_lines(lines: &Vec<String>) -> (r: Vec<RemoteFileEntry>)
    ensures
        r@.map_values(|e: RemoteFileEntry| e@) == parsed_views(
            lines@.map_values(|l: String| l@),
        ),
{
    let ghost lv = lines@.map_values(|l: String| l@);
    let mut r: Vec<RemoteFileEntry> = Vec::new();
    let mut i: usize = 0;
    proof {
        assert(lv.take(0) =~= Seq::<Seq<char>>::empty());
        assert(r@.map_values(|e: RemoteFileEntry| e@) =~= parsed_views(lv.take(0)));
    }
    while i < lines.len()
        invariant
            0 <= i <= lines@.len(),
            lv == lines@.map_values(|l: String| l@),
            lv.len() == lines@.len(),
            r@.map_values(|e: RemoteFileEntry| e@) == parsed_views(lv.take(i as int)),
        decreases lines@.len() - i,
    {
        let ghost old_r = r@;
        match parse_list_line(lines[i].as_str()) {
            Some(e) => {
                r.push(e);
                proof {
                    lemma_parsed_views_push(lv.take(i as int), lv[i as int]);
                    assert(lv.take(i as int).push(lv[i as int]) =~= lv.take(i + 1));
                    assert(r@.map_values(|e2: RemoteFileEntry| e2@) =~= old_r.map_values(
                        |e2: RemoteFileEntry| e2@,
                    ).push(r@[r@.len() - 1]@));
                }
            },
            None => {
                proof {
                    lemma_parsed_views_push(lv.take(i as int), lv[i as int]);
                    assert(lv.take(i as int).push(lv[i as int]) =~= lv.take(i + 1));
                }
            },
        }
        i = i + 1;
    }
    proof {
        assert(lv.take(lv.len() as int) =~= lv);
    }
    r
}

/// A line of at least nine tokens whose name is not `.` or `..` parses
/// to the entry the rule describes: name and modified fragment joined
/// by single spaces, directory flag from the permission string's first
/// character, size from the fifth token with zero as the fallback.
pub proof fn lemma_parse_valid_line(line: Seq<char>)
    requires
        tokens_of(line).len() >= 9,
        join_spc(tokens_of(line).skip(8)) != seq!['.'],
        join_spc(tokens_of(line).skip(8)) != seq!['.', '.'],
    ensures
        parse_spec(line) matches Some(e) && {
            let toks = tokens_of(line);
            &&& e.name == join_spc(toks.skip(8))
            &&& e.is_dir == (toks[0][0] == 'd')
            &&& e.size == size_of_token(toks[4])
            &&& e.permissions == toks[0]
            &&& e.modified == toks[5] + seq![' '] + toks[6] + seq![' '] + toks[7]
        },
{
    lemma_tokens_nonempty(line);
    assert(tokens_of(line)[0].len() > 0);
}

/// A line of fewer than nine tokens yields no entry.
pub proof fn lemma_parse_short_line(line: Seq<char>)
    requires
        tokens_of(line).len() < 9,
    ensures
        parse_spec(line) is None,
{
}

} // verus!
