//! The media index: a JSON-like listing of the media directory tree.

use vstd::prelude::*;
use crate::text::join_seq;

verus! {

/// An entry of a directory, as read from the file system. Names are held
/// as the file system's debug formatting of them prints them, quotes
/// included.
pub enum DirEntry {
    /// A file, with its quoted name.
    File(String),
    /// A subdirectory, with its listing, or `None` where it could not be read.
    Dir(Option<DirListing>),
    /// An entry that could not be read.
    Unreadable,
}

/// A directory: its quoted name and its entries in the order they were read.
pub struct DirListing {
    pub name: String,
    pub entries: Vec<DirEntry>,
}

/// The text of a directory listing.
pub open spec fn listing_text(l: DirListing) -> Seq<char>
    decreases l, 1int,
{
    proof {
        assert(decreases_to!(l => l.entries));
        assert(decreases_to!(l.entries => l.entries@));
    }
    "{\"path\":"@ + l.name@ + ",\"dir\": [\n"@ + entries_text(l.entries@) + "\n]}"@
}

/// The texts of the entries, separated by commas.
pub open spec fn entries_text(es: Seq<DirEntry>) -> Seq<char>
    decreases es, 0int,
{
    if es.len() == 0 {
        seq![]
    } else if es.len() == 1 {
        proof {
            assert(decreases_to!(es => es[0]));
        }
        entry_text(es[0])
    } else {
        proof {
            assert(decreases_to!(es => es.drop_last()));
            assert(decreases_to!(es => es[es.len() - 1]));
        }
        entries_text(es.drop_last()) + ","@ + entry_text(es.last())
    }
}

/// The text of one entry: an unreadable entry gives nothing, and an
/// unreadable subdirectory an empty listing.
pub open spec fn entry_text(e: DirEntry) -> Seq<char>
    decreases e, 2int,
{
    match e {
        DirEntry::File(name) => "\n{\"file\": "@ + name@ + "}"@,
        DirEntry::Dir(sub) => match sub {
            Some(l) => {
                proof {
                    assert(decreases_to!(e => sub));
                    assert(decreases_to!(sub => l));
                }
                "\n{\"dir\": "@ + listing_text(l) + " }"@
            },
            None => "\n{\"dir\": "@ + " }"@,
        },
        DirEntry::Unreadable => seq![],
    }
}

/// The entries' texts are joined with `,` between every two consecutive
/// entries, whatever their kinds.
pub proof fn law_entries_joined_with_commas(es: Seq<DirEntry>)
    ensures
        entries_text(es) == join_seq(es.map_values(|e: DirEntry| entry_text(e)), ","@),
    decreases es.len(),
{
    let texts = es.map_values(|e: DirEntry| entry_text(e));
    if es.len() >= 2 {
        law_entries_joined_with_commas(es.drop_last());
        assert(texts.drop_last() =~= es.drop_last().map_values(|e: DirEntry| entry_text(e)));
    }
}

/// A directory's listing text is its name followed by the texts of its
/// entries, joined with commas, inside the listing's brackets.
pub proof fn law_listing_text(l: DirListing)
    ensures
        listing_text(l) == "{\"path\":"@ + l.name@ + ",\"dir\": [\n"@ + join_seq(
            l.entries@.map_values(|e: DirEntry| entry_text(e)),
            ","@,
        ) + "\n]}"@,
{
    law_entries_joined_with_commas(l.entries@);
}

/// The text of a directory listing.
pub fn dir_list(l: &DirListing) -> (r: String)
    ensures
        r@ == listing_text(*l),
    decreases l, 1int,
{
    proof {
        assert(decreases_to!(l => l.entries));
        assert(decreases_to!(l.entries => l.entries@));
    }
    let mut r = "{\"path\":".to_owned();
    r.append(l.name.as_str());
    r.append(",\"dir\": [\n");
    let out = entries_list(&l.entries);
    r.append(out.as_str());
    r.append("\n]}");
    r
}

/// The texts of the entries, separated by commas.
fn entries_list(es: &Vec<DirEntry>) -> (r: String)
    ensures
        r@ == entries_text(es@),
    decreases es@, 0int,
{
    let mut r = String::new();
    let mut i: usize = 0;
    while i < es.len()
        invariant
            i <= es@.len(),
            r@ == entries_text(es@.take(i as int)),
        decreases es@.len() - i,
    {
        proof {
            assert(decreases_to!(es@ => es@[i as int]));
        }
        let ghost prefix = es@.take((i + 1) as int);
        assert(prefix.drop_last() =~= es@.take(i as int));
        assert(prefix.last() == es@[i as int]);
        if i > 0 {
            r.append(",");
        }
        let t = entry_item(&es[i]);
        r.append(t.as_str());
        i = i + 1;
    }
    assert(es@.take(es@.len() as int) =~= es@);
    r
}

/// The text of one entry.
fn entry_item(e: &DirEntry) -> (r: String)
    ensures
        r@ == entry_text(*e),
    decreases e, 2int,
{
    match e {
        DirEntry::File(name) => {
            let mut r = "\n{\"file\": ".to_owned();
            r.append(name.as_str());
            r.append("}");
            r
        },
        DirEntry::Dir(sub) => {
            let mut r = "\n{\"dir\": ".to_owned();
            match sub {
                Some(l) => {
                    proof {
                        assert(decreases_to!(e => sub));
                        assert(decreases_to!(sub => l));
                    }
                    let inner = dir_list(l);
                    r.append(inner.as_str());
                },
                None => {},
            }
            r.append(" }");
            r
        },
        DirEntry::Unreadable => String::new(),
    }
}

/// The media index text: the listing of the media directory, or `failed`
/// where the directory could not be read.
pub open spec fn media_text(listing: Option<DirListing>) -> Seq<char> {
    match listing {
        Some(l) => listing_text(l),
        None => "failed"@,
    }
}

/// The media index text for the listing of the media directory, `None`
/// where it could not be read.
pub fn media_str(listing: &Option<DirListing>) -> (r: String)
    ensures
        r@ == media_text(*listing),
{
    match listing {
        Some(l) => dir_list(l),
        None => "failed".to_owned(),
    }
}

/// The media index that the wiki serves.
pub struct MediaIndex {
    index: String,
}

impl View for MediaIndex {
    type V = Seq<char>;

    closed spec fn view(&self) -> Seq<char> {
        self.index@
    }
}

impl MediaIndex {
    /// The index of the given listing of the media directory.
    pub fn new(listing: &Option<DirListing>) -> (r: MediaIndex)
        ensures
            r@ == media_text(*listing),
    {
        MediaIndex { index: media_str(listing) }
    }

    /// The index text.
    pub fn as_str(&self) -> (r: &str)
        ensures
            r@ == self@,
    {
        self.index.as_str()
    }
}

} // verus!
