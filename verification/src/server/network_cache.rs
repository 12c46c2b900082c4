//! The cache of answers from the network. The interface asks it for an
//! address on every frame; the first time, the cache asks for a request to
//! be sent and answers "loading"; once the answer arrived it keeps it and
//! gives it back on every later ask. The requests themselves are sent and
//! answered outside the library.

use vstd::prelude::*;

use crate::store::StringMap;

verus! {

/// What the cache knows of an address.
#[derive(Clone, Debug)]
pub enum FetchResult<T> {
    Loading,
    Error(String),
    Loaded(T),
}

impl<T: View> View for FetchResult<T> {
    type V = FetchResult<T::V>;

    open spec fn view(&self) -> FetchResult<T::V> {
        match self {
            FetchResult::Loading => FetchResult::Loading,
            FetchResult::Error(e) => FetchResult::Error(*e),
            FetchResult::Loaded(t) => FetchResult::Loaded(t@),
        }
    }
}

/// The result of handing `decoded` the outcome of decoding a body: a body
/// that did not decode becomes an error with the decoder's message.
pub open spec fn decoded_result<U>(decoded: Result<U, String>) -> FetchResult<U> {
    match decoded {
        Ok(u) => FetchResult::Loaded(u),
        Err(e) => FetchResult::Error(e),
    }
}

impl<T> FetchResult<T> {
    /// Decodes a loaded value with `decode`; "loading" and errors pass
    /// through unchanged.
    pub fn decode_with<U, F: Fn(T) -> Result<U, String>>(self, decode: F) -> (r: FetchResult<U>)
        requires
            forall|t: T| decode.requires((t,)),
        ensures
            self is Loading ==> r is Loading,
            self matches FetchResult::Error(e) ==> r == FetchResult::<U>::Error(e),
            self matches FetchResult::Loaded(t) ==> exists|d: Result<U, String>|
                decode.ensures((t,), d) && r == decoded_result(d),
    {
        match self {
            FetchResult::Loading => FetchResult::Loading,
            FetchResult::Error(e) => FetchResult::Error(e),
            FetchResult::Loaded(t) => {
                let ghost given = t;
                let d = decode(t);
                let ghost decoded = d;
                let r = match d {
                    Ok(u) => FetchResult::Loaded(u),
                    Err(e) => FetchResult::Error(e),
                };
                assert(decode.ensures((given,), decoded) && r == decoded_result(decoded));
                r
            },
        }
    }
}

fn copy_result(r: &FetchResult<Vec<u8>>) -> (c: FetchResult<Vec<u8>>)
    ensures
        c@ == r@,
{
    match r {
        FetchResult::Loading => FetchResult::Loading,
        FetchResult::Error(e) => FetchResult::Error(e.clone()),
        FetchResult::Loaded(bytes) => {
            let mut copy: Vec<u8> = Vec::new();
            let mut i: usize = 0;
            while i < bytes.len()
                invariant
                    i <= bytes.len(),
                    copy@ == bytes@.take(i as int),
                decreases bytes.len() - i,
            {
                copy.push(bytes[i]);
                i = i + 1;
                assert(copy@ =~= bytes@.take(i as int));
            }
            assert(bytes@.take(bytes.len() as int) =~= bytes@);
            FetchResult::Loaded(copy)
        },
    }
}

/// What the cache holds: the answers that arrived, and the addresses whose
/// request is under way (`true`) or was answered (`false`).
pub struct CacheModel {
    pub results: Map<Seq<char>, FetchResult<Seq<u8>>>,
    pub loading: Map<Seq<char>, bool>,
}

/// Whether the request for `url` is under way.
pub open spec fn is_loading(m: CacheModel, url: Seq<char>) -> bool {
    m.loading.contains_key(url) && m.loading[url]
}

/// An ask for `url`: the answer, whether a request for `url` must be sent
/// now, and what the cache holds afterwards.
pub open spec fn fetch_model(m: CacheModel, url: Seq<char>) -> (FetchResult<Seq<u8>>, bool, CacheModel) {
    if m.results.contains_key(url) {
        (m.results[url], false, m)
    } else if is_loading(m, url) {
        (FetchResult::Loading, false, m)
    } else {
        (FetchResult::Loading, true, CacheModel { results: m.results, loading: m.loading.insert(url, true) })
    }
}

/// The arrival of the answer `result` to the request for `url`.
pub open spec fn complete_model(m: CacheModel, url: Seq<char>, result: FetchResult<Seq<u8>>) -> CacheModel {
    CacheModel { results: m.results.insert(url, result), loading: m.loading.insert(url, false) }
}

/// The answer of the cache to an ask.
pub struct CacheAnswer {
    /// What the cache knows of the address.
    pub result: FetchResult<Vec<u8>>,
    /// The request for the address must be sent now.
    pub send_request: bool,
}

/// The cache of network answers, keyed by address.
pub struct NetworkCache {
    results: StringMap<FetchResult<Vec<u8>>>,
    is_loading: StringMap<bool>,
}

impl View for NetworkCache {
    type V = CacheModel;

    closed spec fn view(&self) -> CacheModel {
        CacheModel {
            results: self.results@.map_values(|r: FetchResult<Vec<u8>>| r@),
            loading: self.is_loading@,
        }
    }
}

impl NetworkCache {
    pub closed spec fn wf(&self) -> bool {
        self.results.wf() && self.is_loading.wf()
    }

    /// An empty cache.
    pub fn new() -> (r: Self)
        ensures
            r.wf(),
            r@.results == Map::<Seq<char>, FetchResult<Seq<u8>>>::empty(),
            r@.loading == Map::<Seq<char>, bool>::empty(),
    {
        let r = NetworkCache { results: StringMap::new(), is_loading: StringMap::new() };
        assert(r@.results =~= Map::<Seq<char>, FetchResult<Seq<u8>>>::empty());
        r
    }

    /// Asks the cache for `url`: the stored answer if one arrived, else
    /// "loading", with a request to send when none is under way.
    pub fn fetch(&mut self, url: String) -> (r: CacheAnswer)
        requires
            old(self).wf(),
        ensures
            final(self).wf(),
            (r.result@, r.send_request, final(self)@) == fetch_model(old(self)@, url@),
    {
        match self.results.get(url.as_str()) {
            Some(result) => {
                return CacheAnswer { result: copy_result(result), send_request: false };
            },
            None => {},
        }
        match self.is_loading.get(url.as_str()) {
            Some(loading) => {
                if *loading {
                    return CacheAnswer { result: FetchResult::Loading, send_request: false };
                }
            },
            None => {},
        }
        self.is_loading.insert(url, true);
        CacheAnswer { result: FetchResult::Loading, send_request: true }
    }

    /// Stores the answer that arrived for `url`.
    pub fn complete(&mut self, url: String, result: FetchResult<Vec<u8>>)
        requires
            old(self).wf(),
        ensures
            final(self).wf(),
            final(self)@ == complete_model(old(self)@, url@, result@),
    {
        let key = url.clone();
        let ghost r = result;
        self.results.insert(key, result);
        self.is_loading.insert(url, false);
        assert(self@.results =~= old(self)@.results.insert(url@, r@));
    }
}

/// Law: once the answer for an address arrived, every ask for it gives that
/// answer back and sends no request.
pub proof fn lemma_fetch_after_complete(m: CacheModel, url: Seq<char>, result: FetchResult<Seq<u8>>)
    ensures
        fetch_model(complete_model(m, url, result), url).0 == result,
        !fetch_model(complete_model(m, url, result), url).1,
{
}

/// Law: right after an ask for an address, a second ask sends no request
/// and gives the same answer.
pub proof fn lemma_one_request_per_address(m: CacheModel, url: Seq<char>)
    ensures
        !fetch_model(fetch_model(m, url).2, url).1,
        fetch_model(fetch_model(m, url).2, url).0 == fetch_model(m, url).0,
{
}

/// Law: a request is sent exactly for an address that has no answer and no
/// request under way.
pub proof fn lemma_request_when_unknown(m: CacheModel, url: Seq<char>)
    ensures
        fetch_model(m, url).1 <==> (!m.results.contains_key(url) && !is_loading(m, url)),
{
}

/// Law: asking never changes the stored answers.
pub proof fn lemma_fetch_keeps_results(m: CacheModel, url: Seq<char>)
    ensures
        fetch_model(m, url).2.results == m.results,
{
}

/// Law: the answer for one address does not change what the cache says of
/// another.
pub proof fn lemma_complete_other_address(
    m: CacheModel,
    url: Seq<char>,
    other: Seq<char>,
    result: FetchResult<Seq<u8>>,
)
    requires
        url != other,
    ensures
        fetch_model(complete_model(m, other, result), url).0 == fetch_model(m, url).0,
        fetch_model(complete_model(m, other, result), url).1 == fetch_model(m, url).1,
{
}

/// What happens to the cache: an ask for an address, or the arrival of the
/// answer to the request for an address.
pub enum CacheEvent {
    Ask(Seq<char>),
    Answer(Seq<char>, FetchResult<Seq<u8>>),
}

/// The cache after one event.
pub open spec fn apply_event(m: CacheModel, event: CacheEvent) -> CacheModel {
    match event {
        CacheEvent::Ask(url) => fetch_model(m, url).2,
        CacheEvent::Answer(url, result) => complete_model(m, url, result),
    }
}

/// The cache after a sequence of events, first to last.
pub open spec fn run_events(m: CacheModel, events: Seq<CacheEvent>) -> CacheModel
    decreases events.len(),
{
    if events.len() == 0 {
        m
    } else {
        apply_event(run_events(m, events.drop_last()), events.last())
    }
}

/// How many requests for `url` the asks of a sequence of events send.
pub open spec fn requests_sent(m: CacheModel, events: Seq<CacheEvent>, url: Seq<char>) -> nat
    decreases events.len(),
{
    if events.len() == 0 {
        0
    } else {
        let before = run_events(m, events.drop_last());
        let sent: nat = if events.last() == CacheEvent::Ask(url) && fetch_model(before, url).1 {
            1
        } else {
            0
        };
        requests_sent(m, events.drop_last(), url) + sent
    }
}

/// The cache knows of `url`: it holds its answer or its request is under way.
pub open spec fn knows(m: CacheModel, url: Seq<char>) -> bool {
    m.results.contains_key(url) || is_loading(m, url)
}

/// Whether an event is the answer for `url`.
pub open spec fn is_answer_for(event: CacheEvent, url: Seq<char>) -> bool {
    match event {
        CacheEvent::Answer(u, _) => u == url,
        CacheEvent::Ask(_) => false,
    }
}

/// Whether a sequence of events holds an answer for `url`.
pub open spec fn answers_address(events: Seq<CacheEvent>, url: Seq<char>) -> bool {
    exists|i: int| 0 <= i < events.len() && #[trigger] is_answer_for(events[i], url)
}

/// Law: once an address has an answer, no sequence of asks and of answers
/// for other addresses changes it or sends a request for it; the next ask
/// gives that answer back.
pub proof fn lemma_answer_stays(m: CacheModel, events: Seq<CacheEvent>, url: Seq<char>)
    requires
        m.results.contains_key(url),
        !answers_address(events, url),
    ensures
        run_events(m, events).results.contains_key(url),
        run_events(m, events).results[url] == m.results[url],
        requests_sent(m, events, url) == 0,
        fetch_model(run_events(m, events), url) == (m.results[url], false, run_events(m, events)),
    decreases events.len(),
{
    if events.len() > 0 {
        let init = events.drop_last();
        assert(!answers_address(init, url)) by {
            if answers_address(init, url) {
                let i = choose|i: int| 0 <= i < init.len() && #[trigger] is_answer_for(init[i], url);
                assert(events[i] == init[i]);
                assert(is_answer_for(events[i], url));
            }
        }
        lemma_answer_stays(m, init, url);
        assert(!is_answer_for(events[events.len() - 1], url));
    }
}

proof fn lemma_knowing_persists(m: CacheModel, events: Seq<CacheEvent>, url: Seq<char>)
    ensures
        knows(m, url) ==> knows(run_events(m, events), url),
        requests_sent(m, events, url) > 0 ==> knows(run_events(m, events), url),
    decreases events.len(),
{
    if events.len() > 0 {
        lemma_knowing_persists(m, events.drop_last(), url);
    }
}

/// Law: over any sequence of asks and answers, a request for an address is
/// sent at most once, and never for an address the cache already knows of.
pub proof fn lemma_at_most_one_request(m: CacheModel, events: Seq<CacheEvent>, url: Seq<char>)
    ensures
        requests_sent(m, events, url) <= 1,
        knows(m, url) ==> requests_sent(m, events, url) == 0,
    decreases events.len(),
{
    if events.len() > 0 {
        let init = events.drop_last();
        lemma_at_most_one_request(m, init, url);
        lemma_knowing_persists(m, init, url);
    }
}

} // verus!
