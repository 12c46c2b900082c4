//! The addresses at which the client asks the media server for data.

use vstd::prelude::*;

use crate::text::int_text;
use crate::text::lemma_int_text_injective;
use crate::text::push_int;

verus! {

/// What the client asks the server for.
#[derive(Clone, Copy, Debug, PartialEq, Eq, Structural)]
pub enum Fetch {
    /// All series.
    Shows,
    /// The episodes of the series with this id.
    Episodes(i64),
    /// The episode with this id.
    Episode(i64),
}

/// The path, under the server address, of what `fetch` asks for.
pub open spec fn fetch_path(fetch: Fetch) -> Seq<char> {
    match fetch {
        Fetch::Shows => "/shows"@,
        Fetch::Episodes(id) => "/shows/"@ + int_text(id as int) + "/episodes"@,
        Fetch::Episode(id) => "/episodes/"@ + int_text(id as int),
    }
}

/// The address at which the server at `server_address` answers `fetch`.
pub fn get_url_for_fetch(server_address: &str, fetch: &Fetch) -> (r: String)
    ensures
        r@ == server_address@ + fetch_path(*fetch),
{
    let mut url = server_address.to_owned();
    match fetch {
        Fetch::Shows => {
            url.append("/shows");
        },
        Fetch::Episodes(id) => {
            url.append("/shows/");
            push_int(&mut url, *id);
            url.append("/episodes");
        },
        Fetch::Episode(id) => {
            url.append("/episodes/");
            push_int(&mut url, *id);
        },
    }
    assert(url@ =~= server_address@ + fetch_path(*fetch));
    url
}

proof fn lemma_middle_equal(p: Seq<char>, t1: Seq<char>, t2: Seq<char>, q: Seq<char>)
    requires
        p + t1 + q == p + t2 + q,
    ensures
        t1 == t2,
{
    let s = p + t1 + q;
    assert(t1 =~= s.subrange(p.len() as int, s.len() - q.len()));
    assert(t2 =~= (p + t2 + q).subrange(p.len() as int, s.len() - q.len()));
}

/// Law: what the client asks the server for has an address of its own: the
/// network cache, keyed by address, keeps the answers apart.
pub proof fn lemma_fetch_urls_distinct(server_address: Seq<char>, a: Fetch, b: Fetch)
    requires
        server_address + fetch_path(a) == server_address + fetch_path(b),
    ensures
        a == b,
{
    reveal_strlit("/shows");
    reveal_strlit("/shows/");
    reveal_strlit("/episodes");
    reveal_strlit("/episodes/");
    let (pa, pb) = (fetch_path(a), fetch_path(b));
    assert(pa =~= (server_address + pa).subrange(server_address.len() as int, (server_address + pa).len() as int));
    assert(pb =~= (server_address + pb).subrange(server_address.len() as int, (server_address + pb).len() as int));
    assert(pa == pb);
    match (a, b) {
        (Fetch::Shows, Fetch::Shows) => {},
        (Fetch::Episodes(x), Fetch::Episodes(y)) => {
            lemma_middle_equal("/shows/"@, int_text(x as int), int_text(y as int), "/episodes"@);
            lemma_int_text_injective(x as int, y as int);
        },
        (Fetch::Episode(x), Fetch::Episode(y)) => {
            lemma_middle_equal("/episodes/"@, int_text(x as int), int_text(y as int), Seq::empty());
            assert("/episodes/"@ + int_text(x as int) + Seq::<char>::empty() =~= pa);
            assert("/episodes/"@ + int_text(y as int) + Seq::<char>::empty() =~= pb);
            lemma_int_text_injective(x as int, y as int);
        },
        (Fetch::Shows, Fetch::Episodes(_)) | (Fetch::Episodes(_), Fetch::Shows) => {
            assert(pa.len() != pb.len());
        },
        _ => {
            assert(pa[1] != pb[1]);
        },
    }
}

/// The address at which the server streams the episode with id `id`.
pub open spec fn watch_path(id: i64) -> Seq<char> {
    "/episodes/"@ + int_text(id as int) + "/watch"@
}

/// The address that the player opens to play the episode with id `id`.
pub fn watch_url(server_address: &str, id: i64) -> (r: String)
    ensures
        r@ == server_address@ + watch_path(id),
{
    let mut url = server_address.to_owned();
    url.append("/episodes/");
    push_int(&mut url, id);
    url.append("/watch");
    assert(url@ =~= server_address@ + watch_path(id));
    url
}

} // verus!
