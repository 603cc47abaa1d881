//! Per-request state: the prefix-keyed response buffer map.
//!
//! A context lives exactly as long as one request. It owns a map from
//! route prefix to buffered response state, so that a context observing
//! response events for more than one logical prefix keeps them apart.
//! The map is a concurrency-safe container as a defensive measure; the
//! context itself is never shared across requests.

use vstd::prelude::*;

use crate::textops::{opt_view, push_all};

verus! {

/// One buffered-response record: body bytes and recorded content type.
pub type BufEntry = (Vec<u8>, Option<Vec<u8>>);

/// The concurrency-safe map a context keys by route prefix.
pub type BufMap = dashmap::DashMap<Vec<u8>, BufEntry>;

#[verifier::external_type_specification]
#[verifier::external_body]
#[verifier::reject_recursive_types(K)]
#[verifier::reject_recursive_types(V)]
#[verifier::reject_recursive_types(S)]
pub struct ExDashMap<K, V, S>(dashmap::DashMap<K, V, S>);

/// What a response-buffer map holds: for each prefix, the buffered body
/// bytes and the recorded content type.
pub uninterp spec fn dash_view(m: BufMap) -> Map<Seq<u8>, (Seq<u8>, Option<Seq<u8>>)>;

/// The view of a context holding nothing.
pub open spec fn empty_ctx_view() -> Map<Seq<u8>, (Seq<u8>, Option<Seq<u8>>)> {
    Map::empty()
}

/// Relies on `dashmap::DashMap::new`: a freshly created map is empty.
#[verifier::external_body]
fn dm_new() -> (m: BufMap)
    ensures
        dash_view(m) == empty_ctx_view(),
{
    dashmap::DashMap::new()
}

/// Relies on `dashmap::DashMap::insert`: maps the key to the value,
/// replacing any earlier entry for it.
#[verifier::external_body]
fn dm_insert(m: &mut BufMap, k: Vec<u8>, v: BufEntry)
    ensures
        dash_view(*final(m)) == dash_view(*old(m)).insert(k@, (v.0@, opt_view(v.1))),
{
    m.insert(k, v);
}

/// Relies on `dashmap::DashMap::remove`: takes the entry for the key out
/// of the map and hands its value back, `None` when the key is absent.
#[verifier::external_body]
fn dm_remove(m: &mut BufMap, k: &Vec<u8>) -> (r: Option<BufEntry>)
    ensures
        dash_view(*final(m)) == dash_view(*old(m)).remove(k@),
        match r {
            Some(v) => dash_view(*old(m)).contains_key(k@)
                && dash_view(*old(m))[k@] == (v.0@, opt_view(v.1)),
            None => !dash_view(*old(m)).contains_key(k@),
        },
{
    m.remove(k).map(|kv| kv.1)
}

/// Buffered response state for one prefix: the body bytes collected so
/// far and the content type recorded from the response headers.
pub struct UpstreamResCtx {
    pub buffer: Vec<u8>,
    pub content_type: Option<Vec<u8>>,
}

/// The view of a buffer entry.
pub open spec fn entry_view(e: UpstreamResCtx) -> (Seq<u8>, Option<Seq<u8>>) {
    (e.buffer@, opt_view(e.content_type))
}

/// The state a context holds for `p`: the recorded entry, or an empty one
/// when none was recorded yet.
pub open spec fn entry_or_empty(
    m: Map<Seq<u8>, (Seq<u8>, Option<Seq<u8>>)>,
    p: Seq<u8>,
) -> (Seq<u8>, Option<Seq<u8>>) {
    if m.contains_key(p) {
        m[p]
    } else {
        (Seq::empty(), None)
    }
}

/// Law: buffering a chunk under one prefix — the map update
/// [`ProxyCtx::buffer_chunk`] promises — leaves every other prefix's
/// entry exactly as it was, so responses under different prefixes never
/// observe each other's buffered bytes.
pub proof fn lemma_buffer_isolation(
    m: Map<Seq<u8>, (Seq<u8>, Option<Seq<u8>>)>,
    p: Seq<u8>,
    q: Seq<u8>,
    chunk: Seq<u8>,
)
    requires
        p != q,
    ensures
        ({
            let after = m.insert(p, (entry_or_empty(m, p).0 + chunk, entry_or_empty(m, p).1));
            after.contains_key(q) == m.contains_key(q)
                && (m.contains_key(q) ==> after[q] == m[q])
        }),
{
}

/// Law: finishing a response removes its own prefix's entry and no
/// other — the map after the removal [`crate::response::finish_body`]
/// promises holds nothing for the finished prefix and is unchanged
/// everywhere else.
pub proof fn lemma_finish_removes_own_entry(
    m: Map<Seq<u8>, (Seq<u8>, Option<Seq<u8>>)>,
    p: Seq<u8>,
    q: Seq<u8>,
)
    requires
        p != q,
    ensures
        !m.remove(p).contains_key(p),
        m.remove(p).contains_key(q) == m.contains_key(q),
        m.contains_key(q) ==> m.remove(p)[q] == m[q],
{
}

/// Per-request context: a map from route prefix to buffered response
/// state, created when a request enters the pipeline and dropped when the
/// pipeline completes.
pub struct ProxyCtx {
    map: BufMap,
}

impl View for ProxyCtx {
    type V = Map<Seq<u8>, (Seq<u8>, Option<Seq<u8>>)>;

    closed spec fn view(&self) -> Self::V {
        dash_view(self.map)
    }
}

impl ProxyCtx {
    /// A fresh context with nothing buffered.
    pub fn new() -> (c: ProxyCtx)
        ensures
            c@ == empty_ctx_view(),
    {
        ProxyCtx { map: dm_new() }
    }

    /// Remove and return the buffer entry for `prefix`, if any.
    pub fn take_entry(&mut self, prefix: &Vec<u8>) -> (r: Option<UpstreamResCtx>)
        ensures
            final(self)@ == old(self)@.remove(prefix@),
            match r {
                Some(e) => old(self)@.contains_key(prefix@)
                    && entry_view(e) == old(self)@[prefix@],
                None => !old(self)@.contains_key(prefix@),
            },
    {
        match dm_remove(&mut self.map, prefix) {
            Some(v) => Some(UpstreamResCtx { buffer: v.0, content_type: v.1 }),
            None => None,
        }
    }

    /// Store `e` as the buffer entry for `prefix`, replacing any old one.
    pub fn put_entry(&mut self, prefix: &Vec<u8>, e: UpstreamResCtx)
        ensures
            final(self)@ == old(self)@.insert(prefix@, entry_view(e)),
    {
        let mut key: Vec<u8> = Vec::new();
        push_all(&mut key, prefix);
        let ghost ev = entry_view(e);
        let UpstreamResCtx { buffer, content_type } = e;
        dm_insert(&mut self.map, key, (buffer, content_type));
    }

    /// Append a body chunk to the entry for `prefix`, creating the entry
    /// lazily; the recorded content type is untouched.
    pub fn buffer_chunk(&mut self, prefix: &Vec<u8>, chunk: &Vec<u8>)
        ensures
            final(self)@ == old(self)@.insert(
                prefix@,
                (
                    entry_or_empty(old(self)@, prefix@).0 + chunk@,
                    entry_or_empty(old(self)@, prefix@).1,
                ),
            ),
    {
        let mut e = match self.take_entry(prefix) {
            Some(e) => e,
            None => UpstreamResCtx { buffer: Vec::new(), content_type: None },
        };
        push_all(&mut e.buffer, chunk);
        self.put_entry(prefix, e);
        proof {
            assert(self@ =~= old(self)@.insert(
                prefix@,
                (
                    entry_or_empty(old(self)@, prefix@).0 + chunk@,
                    entry_or_empty(old(self)@, prefix@).1,
                ),
            ));
        }
    }

    /// Record the response's content type for `prefix`, creating the
    /// entry lazily; buffered bytes are untouched.
    pub fn set_content_type(&mut self, prefix: &Vec<u8>, content_type: Option<Vec<u8>>)
        ensures
            final(self)@ == old(self)@.insert(
                prefix@,
                (entry_or_empty(old(self)@, prefix@).0, opt_view(content_type)),
            ),
    {
        let mut e = match self.take_entry(prefix) {
            Some(e) => e,
            None => UpstreamResCtx { buffer: Vec::new(), content_type: None },
        };
        e.content_type = content_type;
        self.put_entry(prefix, e);
        proof {
            assert(self@ =~= old(self)@.insert(
                prefix@,
                (entry_or_empty(old(self)@, prefix@).0, opt_view(content_type)),
            ));
        }
    }
}

} // verus!
