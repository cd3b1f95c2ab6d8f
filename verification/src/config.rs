//! The settings of the feed dumper: mail sources and the feeds to build,
//! and where each feed is stored.
use vstd::prelude::*;
use crate::text::push_char;

verus! {

/// The dumper's settings file.
#[derive(Debug)]
pub struct Config {
    pub sources: Option<Vec<IMAP>>,
    pub feeds: Option<Vec<FeedConfig>>,
}

/// An IMAP account to read mail from.
#[derive(Debug)]
pub struct IMAP {
    pub id: String,
    pub domain: String,
    pub port: u16,
    pub username: String,
}

/// A feed to build: its id (which names its file), its title, and the
/// address whose mail becomes its entries.
#[derive(Debug)]
pub struct FeedConfig {
    pub id: String,
    pub title: String,
    pub email: String,
}

/// `./dumped/<id>.xml`
pub open spec fn feed_file_path_text(id: Seq<char>) -> Seq<char> {
    seq!['.', '/', 'd', 'u', 'm', 'p', 'e', 'd', '/'] + id + seq!['.', 'x', 'm', 'l']
}

/// The file that stores the feed with the given id.
pub fn feed_file_path(id: &str) -> (p: String)
    ensures
        p@ == feed_file_path_text(id@),
{
    let mut p = String::new();
    p.append("./dumped/");
    p.append(id);
    p.append(".xml");
    proof {
        reveal_strlit("./dumped/");
        reveal_strlit(".xml");
        assert(p@ =~= feed_file_path_text(id@));
    }
    p
}

/// `Feed for '<email>'`
pub open spec fn feed_title_text(email: Seq<char>) -> Seq<char> {
    seq!['F', 'e', 'e', 'd', ' ', 'f', 'o', 'r', ' ', '\''] + email + seq!['\'']
}

/// The title of a feed built from the mail of one address.
pub fn feed_title_for(email: &str) -> (t: String)
    ensures
        t@ == feed_title_text(email@),
{
    let mut t = String::new();
    t.append("Feed for '");
    t.append(email);
    push_char(&mut t, '\'');
    proof {
        reveal_strlit("Feed for '");
        assert(t@ =~= feed_title_text(email@));
    }
    t
}

} // verus!
