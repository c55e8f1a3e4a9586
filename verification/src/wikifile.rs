//! The wiki's revision file format: a JSON revision header, a demarcation
//! line, then the page data.

use vstd::prelude::*;
use crate::text::{
    contains_seq, decimal, format_zero_padded, lemma_first_match_is, lemma_first_match_none,
    lemma_parse_usize_nonneg, lemma_parse_zero_padded, matches_at, parse_usize, parse_usize_str,
    split_from, split_seq, split_str, string_from_chars, to_chars, views, zero_padded,
};

verus! {

/// The line that separates a revision header from the page data.
pub const DELIMETER: &'static str = "<!--REVISION HEADER DEMARCATION>";

/// The revision information stored in front of every wiki file.
pub struct PageRevisionStruct {
    pub page: String,
    pub revision: String,
    pub previous_revision: String,
    pub create_date: String,
    pub revision_date: String,
    pub revised_by: String,
    pub comment: String,
    pub lock: String,
    pub data: String,
}

/// A character that a page name may not hold: it would let the name
/// reach outside its directory.
pub open spec fn is_path_char(c: char) -> bool {
    c == '.' || c == '/' || c == '\\'
}

/// `s` with every `.`, `/` and `\` removed.
pub open spec fn strip_path_chars(s: Seq<char>) -> Seq<char>
    decreases s.len(),
{
    if s.len() == 0 {
        seq![]
    } else if is_path_char(s.last()) {
        strip_path_chars(s.drop_last())
    } else {
        strip_path_chars(s.drop_last()).push(s.last())
    }
}

/// The Unicode lowercase mapping of a string, as `str::to_lowercase` computes it.
pub uninterp spec fn lowercase(s: Seq<char>) -> Seq<char>;

/// `str::to_lowercase`: the string with each character replaced by its
/// Unicode lowercase mapping. Only that the result is a function of the
/// input is claimed; the Unicode tables themselves are not stated.
#[verifier::external_body]
fn to_lowercase(s: &str) -> (r: String)
    ensures
        r@ == lowercase(s@),
{
    s.to_lowercase()
}

/// The page name that `clean` makes of `page`.
pub open spec fn cleaned_page(page: Seq<char>, case_sense: bool) -> Seq<char> {
    strip_path_chars(if case_sense { page } else { lowercase(page) })
}

/// The two headers agree on every field but the page name.
pub open spec fn same_but_page(a: PageRevisionStruct, b: PageRevisionStruct) -> bool {
    &&& a.revision@ == b.revision@
    &&& a.previous_revision@ == b.previous_revision@
    &&& a.create_date@ == b.create_date@
    &&& a.revision_date@ == b.revision_date@
    &&& a.revised_by@ == b.revised_by@
    &&& a.comment@ == b.comment@
    &&& a.lock@ == b.lock@
    &&& a.data@ == b.data@
}

/// The characters of `s` that are not path characters.
fn strip_path_string(s: &str) -> (r: String)
    ensures
        r@ == strip_path_chars(s@),
{
    let cs = to_chars(s);
    let mut kept: Vec<char> = Vec::new();
    let mut i: usize = 0;
    while i < cs.len()
        invariant
            i <= cs.len(),
            cs@ == s@,
            kept@ == strip_path_chars(cs@.take(i as int)),
        decreases cs.len() - i,
    {
        let c = cs[i];
        assert(cs@.take((i + 1) as int).drop_last() =~= cs@.take(i as int));
        if !(c == '.' || c == '/' || c == '\\') {
            kept.push(c);
        }
        i = i + 1;
    }
    assert(cs@.take(cs.len() as int) =~= cs@);
    string_from_chars(&kept)
}

impl PageRevisionStruct {
    /// Cleans the page field so that it names a page and nothing else:
    /// lowercased unless the file system is case sensitive, and with every
    /// `.`, `/` and `\` removed.
    pub fn clean(&mut self, case_sense: bool)
        ensures
            final(self).page@ == cleaned_page(old(self).page@, case_sense),
            same_but_page(*final(self), *old(self)),
    {
        let stripped = if case_sense {
            strip_path_string(self.page.as_str())
        } else {
            let lower = to_lowercase(self.page.as_str());
            strip_path_string(lower.as_str())
        };
        self.page = stripped;
    }
}

/// A cleaned page name holds no `.`, `/` or `\`.
pub proof fn law_clean_removes_path_chars(s: Seq<char>)
    ensures
        forall|i: int| 0 <= i < strip_path_chars(s).len() ==> !is_path_char(
            #[trigger] strip_path_chars(s)[i],
        ),
    decreases s.len(),
{
    if s.len() > 0 {
        let r = strip_path_chars(s.drop_last());
        law_clean_removes_path_chars(s.drop_last());
        if !is_path_char(s.last()) {
            assert forall|i: int| 0 <= i < r.push(s.last()).len() implies !is_path_char(
                r.push(s.last())[i],
            ) by {
                if i < r.len() {
                    assert(r.push(s.last())[i] == r[i]);
                }
            }
        }
    }
}

/// A page name that holds no `.`, `/` or `\` is left as it is.
pub proof fn law_clean_keeps_plain_names(s: Seq<char>)
    requires
        forall|i: int| 0 <= i < s.len() ==> !is_path_char(#[trigger] s[i]),
    ensures
        strip_path_chars(s) == s,
    decreases s.len(),
{
    if s.len() > 0 {
        law_clean_keeps_plain_names(s.drop_last());
        assert(s.drop_last().push(s.last()) =~= s);
    }
}

/// Cleaning changes the page name only: every other field of the header
/// is kept as it was.
pub proof fn law_clean_keeps_other_fields(a: PageRevisionStruct, b: PageRevisionStruct)
    requires
        same_but_page(a, b),
    ensures
        a.revision@ == b.revision@,
        a.previous_revision@ == b.previous_revision@,
        a.create_date@ == b.create_date@,
        a.revision_date@ == b.revision_date@,
        a.revised_by@ == b.revised_by@,
        a.comment@ == b.comment@,
        a.lock@ == b.lock@,
        a.data@ == b.data@,
{
}

/// Cleaning a page name twice, case sensitively, gives what cleaning it once gives.
pub proof fn law_clean_idempotent(page: Seq<char>)
    ensures
        cleaned_page(cleaned_page(page, true), true) == cleaned_page(page, true),
{
    law_clean_removes_path_chars(page);
    law_clean_keeps_plain_names(strip_path_chars(page));
}

/// The text of revision number `n`: nine digits, zero-padded.
pub open spec fn revision_text(n: int) -> Seq<char> {
    zero_padded(decimal(n as nat), 9)
}

/// `h` is the header that follows `old` when `user` saves at `now`: the
/// previous revision is the old one, the revision number is one more, and
/// everything else but the date and author stays.
pub open spec fn is_next_revision(
    old: PageRevisionStruct,
    h: PageRevisionStruct,
    user: Seq<char>,
    now: Seq<char>,
) -> bool {
    &&& parse_usize(old.revision@) matches Some(n) && h.revision@ == revision_text(n + 1)
    &&& h.previous_revision@ == old.revision@
    &&& h.revision_date@ == now
    &&& h.revised_by@ == user
    &&& h.page@ == old.page@
    &&& h.create_date@ == old.create_date@
    &&& h.comment@ == old.comment@
    &&& h.lock@ == old.lock@
    &&& h.data@ == old.data@
}

/// Saving again after a save goes on counting: the revision number of the
/// next header reads back as one more than the one before.
pub proof fn law_next_revision_counts(
    old: PageRevisionStruct,
    h: PageRevisionStruct,
    user: Seq<char>,
    now: Seq<char>,
    n: int,
)
    requires
        is_next_revision(old, h, user, now),
        parse_usize(old.revision@) == Some(n),
        n < usize::MAX,
    ensures
        parse_usize(h.revision@) == Some(n + 1),
{
    lemma_parse_usize_nonneg(old.revision@);
    lemma_parse_zero_padded((n + 1) as nat, 9);
}

impl PageRevisionStruct {
    /// The header under which `user` saves a new revision at time `now`.
    /// `None` where the current revision is not a decimal number of the
    /// `usize` range, or is the largest one (no next number exists).
    pub fn next_revision(&self, user: &str, now: &str) -> (r: Option<PageRevisionStruct>)
        ensures
            match r {
                Some(h) => is_next_revision(*self, h, user@, now@),
                None => !(parse_usize(self.revision@) matches Some(n) && n < usize::MAX),
            },
    {
        let n = match parse_usize_str(self.revision.as_str()) {
            Some(n) => n,
            None => return None,
        };
        if n == usize::MAX {
            return None;
        }
        Some(
            PageRevisionStruct {
                page: self.page.clone(),
                revision: format_zero_padded(n + 1, 9),
                previous_revision: self.revision.clone(),
                create_date: self.create_date.clone(),
                revision_date: now.to_owned(),
                revised_by: user.to_owned(),
                comment: self.comment.clone(),
                lock: self.lock.clone(),
                data: self.data.clone(),
            },
        )
    }
}

/// `h` is `old` as saved by `user` at `now`: the author and the revision
/// date are the saver's, everything else is as it was.
pub open spec fn is_revised_by(
    old: PageRevisionStruct,
    h: PageRevisionStruct,
    user: Seq<char>,
    now: Seq<char>,
) -> bool {
    &&& h.revised_by@ == user
    &&& h.revision_date@ == now
    &&& h.page@ == old.page@
    &&& h.revision@ == old.revision@
    &&& h.previous_revision@ == old.previous_revision@
    &&& h.create_date@ == old.create_date@
    &&& h.comment@ == old.comment@
    &&& h.lock@ == old.lock@
    &&& h.data@ == old.data@
}

impl PageRevisionStruct {
    /// The header as saved by `user` at time `now`: it records who saved
    /// the revision and when.
    pub fn revised(&self, user: &str, now: &str) -> (r: PageRevisionStruct)
        ensures
            is_revised_by(*self, r, user@, now@),
    {
        PageRevisionStruct {
            page: self.page.clone(),
            revision: self.revision.clone(),
            previous_revision: self.previous_revision.clone(),
            create_date: self.create_date.clone(),
            revision_date: now.to_owned(),
            revised_by: user.to_owned(),
            comment: self.comment.clone(),
            lock: self.lock.clone(),
            data: self.data.clone(),
        }
    }
}

/// The header stored for a save carries every field of the request
/// unchanged, the comment included, but for the author, who is the saver,
/// and the revision date, which is the time of the save.
pub proof fn law_saved_header_keeps_request(
    old: PageRevisionStruct,
    h: PageRevisionStruct,
    user: Seq<char>,
    now: Seq<char>,
)
    requires
        is_revised_by(old, h, user, now),
    ensures
        h.comment@ == old.comment@,
        h.page@ == old.page@,
        h.revision@ == old.revision@,
        h.previous_revision@ == old.previous_revision@,
        h.create_date@ == old.create_date@,
        h.lock@ == old.lock@,
        h.data@ == old.data@,
        h.revised_by@ == user,
        h.revision_date@ == now,
{
}

/// The header that follows another keeps its page, creation date, comment,
/// lock and data; only the revision numbers, the revision date and the
/// author change: the old revision becomes the previous one, the saver the
/// author, the time of the save the revision date (that the new number is
/// one more is `law_next_revision_counts`).
pub proof fn law_next_revision_changes_only_numbering(
    old: PageRevisionStruct,
    h: PageRevisionStruct,
    user: Seq<char>,
    now: Seq<char>,
)
    requires
        is_next_revision(old, h, user, now),
    ensures
        h.create_date@ == old.create_date@,
        h.page@ == old.page@,
        h.comment@ == old.comment@,
        h.lock@ == old.lock@,
        h.data@ == old.data@,
        h.previous_revision@ == old.revision@,
        h.revised_by@ == user,
        h.revision_date@ == now,
{
}

/// The header and data parts of a revision file, if it holds exactly one
/// demarcation line.
pub open spec fn version_parts(s: Seq<char>) -> Option<(Seq<char>, Seq<char>)> {
    let parts = split_seq(s, DELIMETER@);
    if parts.len() == 2 {
        Some((parts[0], parts[1]))
    } else {
        None
    }
}

/// The file text that `join_version` makes of a header and data.
pub open spec fn joined_version(ver: Seq<char>, data: Seq<char>) -> Seq<char> {
    ver.push('\n') + DELIMETER@ + seq!['\n'] + data
}

/// Divides a file in wiki format into the version information and the data.
pub fn split_version(in_str: &str) -> (r: Result<(String, String), String>)
    ensures
        match r {
            Ok((v, d)) => version_parts(in_str@) == Some((v@, d@)),
            Err(e) => version_parts(in_str@) is None && e@ == "Bad versioned string"@,
        },
{
    proof {
        reveal_strlit("<!--REVISION HEADER DEMARCATION>");
    }
    let v = split_str(in_str, DELIMETER);
    if v.len() == 2 {
        assert(views(v@)[0] == v@[0]@);
        assert(views(v@)[1] == v@[1]@);
        Ok((v[0].clone(), v[1].clone()))
    } else {
        Err("Bad versioned string".to_owned())
    }
}

/// Puts the version information and the data together in wiki file format.
pub fn join_version(ver_str: &str, data_str: &str) -> (r: String)
    ensures
        r@ == joined_version(ver_str@, data_str@),
{
    let mut res = String::new();
    res.append(ver_str);
    res.append("\n");
    res.append(DELIMETER);
    res.append("\n");
    res.append(data_str);
    proof {
        reveal_strlit("\n");
        assert(res@ =~= joined_version(ver_str@, data_str@));
    }
    res
}

/// The shape of the demarcation line that the laws below rest on: it opens
/// with the only `<` it holds and closes with `>`.
proof fn lemma_delimiter_shape()
    ensures
        DELIMETER@.len() == 32,
        DELIMETER@[0] == '<',
        DELIMETER@[31] == '>',
        forall|k: int| 1 <= k < 32 ==> DELIMETER@[k] != '<',
{
    reveal_strlit("<!--REVISION HEADER DEMARCATION>");
}

/// Reading a file back gives what writing it put there: splitting the text
/// that `join_version` makes of a header and data gives back the header with
/// its trailing newline and the data with its leading newline, provided that
/// neither holds the demarcation line itself.
pub proof fn law_split_join_version(ver: Seq<char>, data: Seq<char>)
    requires
        !contains_seq(ver, DELIMETER@),
        !contains_seq(data, DELIMETER@),
    ensures
        version_parts(joined_version(ver, data)) == Some((ver.push('\n'), seq!['\n'] + data)),
{
    lemma_delimiter_shape();
    let d = DELIMETER@;
    let j = joined_version(ver, data);
    let a: int = ver.len() as int + 1;
    let b: int = a + 32;
    assert(j.len() == b + 1 + data.len());
    assert forall|k: int| 0 <= k < ver.len() implies j[k] == ver[k] by {}
    assert(j[a - 1] == '\n');
    assert forall|k: int| 0 <= k < 32 implies j[a + k] == d[k] by {}
    assert(j[b] == '\n');
    assert forall|k: int| 0 <= k < data.len() implies j[b + 1 + k] == data[k] by {}
    assert forall|i: int| 0 <= i < a implies !matches_at(j, d, i) by {
        if matches_at(j, d, i) {
            if i + 32 <= ver.len() {
                assert(j.subrange(i, i + 32) =~= ver.subrange(i, i + 32));
                assert(matches_at(ver, d, i));
            } else if i + 32 == a {
                assert(j.subrange(i, i + 32)[31] == j[a - 1]);
            } else {
                let k = a - i;
                assert(j.subrange(i, i + 32)[k] == j[a + 0]);
            }
        }
    }
    assert(j.subrange(a, a + 32) =~= d);
    assert(matches_at(j, d, a));
    lemma_first_match_is(j, d, 0, a);
    assert forall|i: int| b <= i implies !matches_at(j, d, i) by {
        if matches_at(j, d, i) {
            if i == b {
                assert(j.subrange(i, i + 32)[0] == j[b]);
            } else {
                let o = i - b - 1;
                assert(j.subrange(i, i + 32) =~= data.subrange(o, o + 32));
                assert(matches_at(data, d, o));
            }
        }
    }
    lemma_first_match_none(j, d, b);
    assert(split_from(j, d, b) == seq![j.subrange(b, j.len() as int)]);
    assert(split_from(j, d, 0) == seq![j.subrange(0, a)] + split_from(j, d, b));
    assert(j.subrange(0, a) =~= ver.push('\n'));
    assert(j.subrange(b, j.len() as int) =~= seq!['\n'] + data);
    assert(split_seq(j, d) =~= seq![ver.push('\n'), seq!['\n'] + data]);
}

/// A value read from a wiki file, with the revision header it came with,
/// such as the configuration or the user list.
pub struct WikiContainer<S> {
    pub data: S,
    pub header: PageRevisionStruct,
}

} // verus!
