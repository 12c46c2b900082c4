//! The cache of images shown by the interface. An image is fetched through
//! the network cache; once its bytes arrived it is decoded and uploaded to
//! the graphics card once, outside the library, and handed back from then on.

use vstd::prelude::*;

use crate::server::network_cache::CacheModel;
use crate::server::network_cache::FetchResult;
use crate::server::network_cache::NetworkCache;
use crate::server::network_cache::complete_model;
use crate::server::network_cache::fetch_model;
use crate::store::StringMap;

verus! {

/// What to do about an image the interface asks for.
#[derive(Debug)]
pub enum ImageStep<B> {
    /// The image is uploaded: take it from the cache.
    Ready,
    /// The bytes arrived and no upload is under way: upload these bytes.
    Upload(B),
    /// Nothing to show yet.
    Wait,
}

impl<B: View> View for ImageStep<B> {
    type V = ImageStep<B::V>;

    open spec fn view(&self) -> ImageStep<B::V> {
        match self {
            ImageStep::Ready => ImageStep::Ready,
            ImageStep::Upload(b) => ImageStep::Upload(b@),
            ImageStep::Wait => ImageStep::Wait,
        }
    }
}

/// The answer to an ask for an image.
pub struct ImageAnswer {
    pub step: ImageStep<Vec<u8>>,
    /// The network request for the image must be sent now.
    pub send_request: bool,
}

/// What the image cache holds: the uploaded images, and the addresses whose
/// upload is under way (`true`) or done (`false`).
pub struct ImageCacheModel<I> {
    pub ready: Map<Seq<char>, I>,
    pub uploading: Map<Seq<char>, bool>,
}

pub open spec fn is_uploading<I>(m: ImageCacheModel<I>, url: Seq<char>) -> bool {
    m.uploading.contains_key(url) && m.uploading[url]
}

/// An ask for the image at `url`: the step, whether a network request must
/// be sent, and what the image cache and the network cache hold afterwards.
pub open spec fn fetch_image_model<I>(m: ImageCacheModel<I>, cache: CacheModel, url: Seq<char>) -> (
    ImageStep<Seq<u8>>,
    bool,
    ImageCacheModel<I>,
    CacheModel,
) {
    if m.ready.contains_key(url) {
        (ImageStep::Ready, false, m, cache)
    } else {
        let (result, request, cache2) = fetch_model(cache, url);
        match result {
            FetchResult::Loaded(bytes) => if is_uploading(m, url) {
                (ImageStep::Wait, request, m, cache2)
            } else {
                (
                    ImageStep::Upload(bytes),
                    request,
                    ImageCacheModel { ready: m.ready, uploading: m.uploading.insert(url, true) },
                    cache2,
                )
            },
            _ => (ImageStep::Wait, request, m, cache2),
        }
    }
}

/// The end of the upload of the image at `url`.
pub open spec fn finish_upload_model<I>(m: ImageCacheModel<I>, url: Seq<char>, image: I) -> ImageCacheModel<I> {
    ImageCacheModel { ready: m.ready.insert(url, image), uploading: m.uploading.insert(url, false) }
}

/// The cache of uploaded images, keyed by address.
pub struct NetworkImageCache<I> {
    is_on_gpu: StringMap<I>,
    is_uploading: StringMap<bool>,
}

impl<I> View for NetworkImageCache<I> {
    type V = ImageCacheModel<I>;

    closed spec fn view(&self) -> ImageCacheModel<I> {
        ImageCacheModel { ready: self.is_on_gpu@, uploading: self.is_uploading@ }
    }
}

impl<I> NetworkImageCache<I> {
    pub closed spec fn wf(&self) -> bool {
        self.is_on_gpu.wf() && self.is_uploading.wf()
    }

    /// An empty image cache.
    pub fn new() -> (r: Self)
        ensures
            r.wf(),
            r@.ready == Map::<Seq<char>, I>::empty(),
            r@.uploading == Map::<Seq<char>, bool>::empty(),
    {
        NetworkImageCache { is_on_gpu: StringMap::new(), is_uploading: StringMap::new() }
    }

    /// The uploaded image of `url`, if there is one.
    pub fn ready_image(&self, url: &str) -> (r: Option<&I>)
        requires
            self.wf(),
        ensures
            r matches Some(image) ==> self@.ready.contains_key(url@) && *image == self@.ready[url@],
            r is None ==> !self@.ready.contains_key(url@),
    {
        self.is_on_gpu.get(url)
    }

    /// Asks for the image at `url`, through `cache` when it is not uploaded.
    pub fn fetch_image(&mut self, cache: &mut NetworkCache, url: String) -> (r: ImageAnswer)
        requires
            old(self).wf(),
            old(cache).wf(),
        ensures
            final(self).wf(),
            final(cache).wf(),
            (r.step@, r.send_request, final(self)@, final(cache)@) == fetch_image_model(
                old(self)@,
                old(cache)@,
                url@,
            ),
    {
        if self.is_on_gpu.contains_key(url.as_str()) {
            return ImageAnswer { step: ImageStep::Ready, send_request: false };
        }
        let key = url.clone();
        let answer = cache.fetch(url);
        match answer.result {
            FetchResult::Loaded(bytes) => {
                let uploading = match self.is_uploading.get(key.as_str()) {
                    Some(flag) => *flag,
                    None => false,
                };
                if uploading {
                    ImageAnswer { step: ImageStep::Wait, send_request: answer.send_request }
                } else {
                    self.is_uploading.insert(key, true);
                    ImageAnswer { step: ImageStep::Upload(bytes), send_request: answer.send_request }
                }
            },
            _ => ImageAnswer { step: ImageStep::Wait, send_request: answer.send_request },
        }
    }

    /// Stores the uploaded image of `url`.
    pub fn finish_upload(&mut self, url: String, image: I)
        requires
            old(self).wf(),
        ensures
            final(self).wf(),
            final(self)@ == finish_upload_model(old(self)@, url@, image),
    {
        let key = url.clone();
        self.is_on_gpu.insert(key, image);
        self.is_uploading.insert(url, false);
    }
}

/// Law: once the image of an address is uploaded, it is the image handed
/// back for that address, and asking for it leaves the network cache alone.
pub proof fn lemma_image_ready_after_upload<I>(
    m: ImageCacheModel<I>,
    cache: CacheModel,
    url: Seq<char>,
    image: I,
)
    ensures
        finish_upload_model(m, url, image).ready[url] == image,
        fetch_image_model(finish_upload_model(m, url, image), cache, url).0 == ImageStep::<Seq<u8>>::Ready,
        fetch_image_model(finish_upload_model(m, url, image), cache, url).3 == cache,
        !fetch_image_model(finish_upload_model(m, url, image), cache, url).1,
{
}

/// Law: asking for images never changes or drops an uploaded image.
pub proof fn lemma_fetch_image_keeps_uploaded<I>(m: ImageCacheModel<I>, cache: CacheModel, url: Seq<char>)
    ensures
        fetch_image_model(m, cache, url).2.ready == m.ready,
{
}

/// Law: an image is uploaded once: right after an ask that starts its
/// upload, another ask does not start a second one.
pub proof fn lemma_one_upload_at_a_time<I>(m: ImageCacheModel<I>, cache: CacheModel, url: Seq<char>)
    ensures
        ({
            let (step, _, m2, cache2) = fetch_image_model(m, cache, url);
            step is Upload ==> !(fetch_image_model(m2, cache2, url).0 is Upload)
        }),
{
}

/// What happens to the image cache: an ask for an image, the end of the
/// upload of an image, or the arrival of a network answer.
pub enum ImageEvent<I> {
    Ask(Seq<char>),
    Finish(Seq<char>, I),
    Answer(Seq<char>, FetchResult<Seq<u8>>),
}

/// The image cache and the network cache after one event.
pub open spec fn apply_image_event<I>(state: (ImageCacheModel<I>, CacheModel), event: ImageEvent<I>) -> (
    ImageCacheModel<I>,
    CacheModel,
) {
    match event {
        ImageEvent::Ask(url) => {
            let (_, _, m, cache) = fetch_image_model(state.0, state.1, url);
            (m, cache)
        },
        ImageEvent::Finish(url, image) => (finish_upload_model(state.0, url, image), state.1),
        ImageEvent::Answer(url, result) => (state.0, complete_model(state.1, url, result)),
    }
}

/// The caches after a sequence of events, first to last.
pub open spec fn run_image_events<I>(state: (ImageCacheModel<I>, CacheModel), events: Seq<ImageEvent<I>>) -> (
    ImageCacheModel<I>,
    CacheModel,
)
    decreases events.len(),
{
    if events.len() == 0 {
        state
    } else {
        apply_image_event(run_image_events(state, events.drop_last()), events.last())
    }
}

/// How many uploads of the image at `url` the asks of a sequence start.
pub open spec fn uploads_started<I>(
    state: (ImageCacheModel<I>, CacheModel),
    events: Seq<ImageEvent<I>>,
    url: Seq<char>,
) -> nat
    decreases events.len(),
{
    if events.len() == 0 {
        0
    } else {
        let before = run_image_events(state, events.drop_last());
        let started: nat = if events.last() == ImageEvent::<I>::Ask(url) && fetch_image_model(
            before.0,
            before.1,
            url,
        ).0 is Upload {
            1
        } else {
            0
        };
        uploads_started(state, events.drop_last(), url) + started
    }
}

/// Whether an event ends the upload of the image at `url`.
pub open spec fn is_finish_for<I>(event: ImageEvent<I>, url: Seq<char>) -> bool {
    match event {
        ImageEvent::Finish(u, _) => u == url,
        _ => false,
    }
}

/// Whether a sequence of events ends the upload of the image at `url`.
pub open spec fn finishes_address<I>(events: Seq<ImageEvent<I>>, url: Seq<char>) -> bool {
    exists|i: int| 0 <= i < events.len() && #[trigger] is_finish_for(events[i], url)
}

/// The image cache holds the image at `url` or uploads it.
pub open spec fn holds_image<I>(m: ImageCacheModel<I>, url: Seq<char>) -> bool {
    m.ready.contains_key(url) || is_uploading(m, url)
}

proof fn lemma_no_finish_in_prefix<I>(events: Seq<ImageEvent<I>>, url: Seq<char>)
    requires
        events.len() > 0,
        !finishes_address(events, url),
    ensures
        !finishes_address(events.drop_last(), url),
        !is_finish_for(events.last(), url),
{
    let init = events.drop_last();
    if finishes_address(init, url) {
        let i = choose|i: int| 0 <= i < init.len() && #[trigger] is_finish_for(init[i], url);
        assert(events[i] == init[i]);
        assert(is_finish_for(events[i], url));
    }
    assert(!is_finish_for(events[events.len() - 1], url));
}

/// Law: once the image at an address is uploaded, no sequence of asks, of
/// network answers and of uploads of other images changes it; asking for it
/// gives it back, leaves the network cache alone and starts no upload.
pub proof fn lemma_uploaded_image_stays<I>(
    state: (ImageCacheModel<I>, CacheModel),
    events: Seq<ImageEvent<I>>,
    url: Seq<char>,
)
    requires
        state.0.ready.contains_key(url),
        !finishes_address(events, url),
    ensures
        run_image_events(state, events).0.ready.contains_key(url),
        run_image_events(state, events).0.ready[url] == state.0.ready[url],
        uploads_started(state, events, url) == 0,
        ({
            let now = run_image_events(state, events);
            let (step, request, m, cache) = fetch_image_model(now.0, now.1, url);
            step == ImageStep::<Seq<u8>>::Ready && !request && m == now.0 && cache == now.1
        }),
    decreases events.len(),
{
    if events.len() > 0 {
        lemma_no_finish_in_prefix(events, url);
        lemma_uploaded_image_stays(state, events.drop_last(), url);
    }
}

/// Law: while the upload of an image is under way (its bytes may never
/// decode), no sequence of asks, of network answers and of uploads of other
/// images starts a second upload of it or hands it out: every ask waits.
pub proof fn lemma_pending_upload_waits<I>(
    state: (ImageCacheModel<I>, CacheModel),
    events: Seq<ImageEvent<I>>,
    url: Seq<char>,
)
    requires
        !state.0.ready.contains_key(url),
        is_uploading(state.0, url),
        !finishes_address(events, url),
    ensures
        !run_image_events(state, events).0.ready.contains_key(url),
        is_uploading(run_image_events(state, events).0, url),
        uploads_started(state, events, url) == 0,
        ({
            let now = run_image_events(state, events);
            fetch_image_model(now.0, now.1, url).0 is Wait
        }),
    decreases events.len(),
{
    if events.len() > 0 {
        lemma_no_finish_in_prefix(events, url);
        lemma_pending_upload_waits(state, events.drop_last(), url);
    }
}

proof fn lemma_holding_persists<I>(
    state: (ImageCacheModel<I>, CacheModel),
    events: Seq<ImageEvent<I>>,
    url: Seq<char>,
)
    ensures
        holds_image(state.0, url) ==> holds_image(run_image_events(state, events).0, url),
        uploads_started(state, events, url) > 0 ==> holds_image(run_image_events(state, events).0, url),
    decreases events.len(),
{
    if events.len() > 0 {
        lemma_holding_persists(state, events.drop_last(), url);
    }
}

/// Law: over any sequence of asks, network answers and finished uploads,
/// the image at an address is uploaded at most once, and never when it is
/// uploaded or being uploaded already.
pub proof fn lemma_at_most_one_upload<I>(
    state: (ImageCacheModel<I>, CacheModel),
    events: Seq<ImageEvent<I>>,
    url: Seq<char>,
)
    ensures
        uploads_started(state, events, url) <= 1,
        holds_image(state.0, url) ==> uploads_started(state, events, url) == 0,
    decreases events.len(),
{
    if events.len() > 0 {
        lemma_at_most_one_upload(state, events.drop_last(), url);
        lemma_holding_persists(state, events.drop_last(), url);
    }
}

} // verus!
