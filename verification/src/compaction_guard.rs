//! Compaction-guard bridge: the capability contract for guard
//! placement, the proxy the native engine's trampolines forward into,
//! the defensive marshaling of guard lists into the count/length/buffer
//! layout the native side expects, and the handle with its exactly-once
//! teardown discipline.

use vstd::prelude::*;

verus! {

/// A capability that lets an application place compaction guards:
/// boundary keys at which the native compaction forces a file split.
/// For a fixed implementation the guard set is a pure function of the
/// queried range, so repeated calls with the same range agree —
/// compaction may invoke the callback several times per job.
pub trait CompactionGuard: Sized {
    /// The ordered guard keys for the range `[start, end)`, as a
    /// function of the implementation value and the range alone.
    spec fn spec_guards(&self, start: Seq<u8>, end: Seq<u8>) -> Seq<Seq<u8>>;

    fn get_guards_in_range(&self, start: &[u8], end: &[u8]) -> (r: Vec<Vec<u8>>)
        ensures
            r.deep_view() == self.spec_guards(start@, end@),
    ;
}

/// Guard determinism: two results of guard placement for the same
/// implementation and the same range — which is all the contract of
/// `get_guards_in_range` lets a call return — are equal ordered sets.
pub proof fn lemma_guard_determinism<G: CompactionGuard>(
    g: &G,
    start: Seq<u8>,
    end: Seq<u8>,
    first: Seq<Seq<u8>>,
    second: Seq<Seq<u8>>,
)
    requires
        first == g.spec_guards(start, end),
        second == g.spec_guards(start, end),
    ensures
        first == second,
{
}

/// A guard placement that returns the same fixed key list for every
/// range.
pub struct FixedGuards {
    guards: Vec<Vec<u8>>,
}

impl FixedGuards {
    /// The fixed key list this placement was built with.
    pub closed spec fn spec_fixed(&self) -> Seq<Seq<u8>> {
        self.guards.deep_view()
    }

    pub fn new(guards: Vec<Vec<u8>>) -> (r: Self)
        ensures
            r.spec_fixed() == guards.deep_view(),
    {
        FixedGuards { guards }
    }
}

impl CompactionGuard for FixedGuards {
    open spec fn spec_guards(&self, start: Seq<u8>, end: Seq<u8>) -> Seq<Seq<u8>> {
        self.spec_fixed()
    }

    fn get_guards_in_range(&self, start: &[u8], end: &[u8]) -> (r: Vec<Vec<u8>>) {
        clone_keys(&self.guards)
    }
}

fn clone_key(key: &Vec<u8>) -> (r: Vec<u8>)
    ensures
        r@ == key@,
{
    let mut r: Vec<u8> = Vec::new();
    let mut i: usize = 0;
    while i < key.len()
        invariant
            i <= key@.len(),
            r@ == key@.subrange(0, i as int),
        decreases key@.len() - i,
    {
        r.push(key[i]);
        proof {
            assert(r@ =~= key@.subrange(0, i + 1 as int));
        }
        i += 1;
    }
    proof {
        assert(r@ =~= key@);
    }
    r
}

/// The deep view of a byte vector is its view.
proof fn lemma_bytes_deep_view(v: Vec<u8>)
    ensures
        v.deep_view() == v@,
{
    assert(v.deep_view() =~= v@);
}

/// The deep view of a key list, element by element.
proof fn lemma_keys_deep_view(v: Vec<Vec<u8>>)
    ensures
        v.deep_view().len() == v@.len(),
        forall|i: int| 0 <= i < v@.len() ==> v.deep_view()[i] == v@[i]@,
{
    assert forall|i: int| 0 <= i < v@.len() implies v.deep_view()[i] == v@[i]@ by {
        lemma_bytes_deep_view(v@[i]);
    }
}

fn clone_keys(keys: &Vec<Vec<u8>>) -> (r: Vec<Vec<u8>>)
    ensures
        r.deep_view() == keys.deep_view(),
{
    let ghost ks: Seq<Seq<u8>> = keys.deep_view();
    proof {
        lemma_keys_deep_view(*keys);
    }
    let mut r: Vec<Vec<u8>> = Vec::new();
    let mut i: usize = 0;
    while i < keys.len()
        invariant
            i <= keys@.len(),
            ks == keys.deep_view(),
            ks.len() == keys@.len(),
            forall|j: int| 0 <= j < keys@.len() ==> ks[j] == keys@[j]@,
            r@.len() == i,
            forall|j: int| 0 <= j < i ==> r@[j]@ == ks[j],
        decreases keys@.len() - i,
    {
        let cloned = clone_key(&keys[i]);
        r.push(cloned);
        i += 1;
    }
    proof {
        lemma_keys_deep_view(r);
        assert(r.deep_view() =~= ks);
    }
    r
}

/// A contract violation that the defensive marshaling scan catches
/// instead of forwarding nonsense to the native allocator.
#[derive(Clone, Copy, Debug, PartialEq, Eq, Structural)]
pub enum MarshalError {
    /// An implementation returned an empty guard key.
    EmptyKey,
    /// A guard key longer than the length field of the native layout
    /// can record.
    KeyTooLong,
    /// More guards than the count field of the native layout can
    /// record.
    TooManyKeys,
}

/// The marshaled output of one guard-placement call with at least one
/// guard: the native side receives one buffer per key plus the matching
/// length array.
#[derive(Debug)]
pub struct GuardBuffers {
    /// The guard keys, in order; each becomes one natively allocated
    /// buffer.
    pub keys: Vec<Vec<u8>>,
    /// The byte length of each key, in the same order.
    pub lens: Vec<u32>,
}

/// What one guard-placement call hands back across the boundary.
#[derive(Debug)]
pub enum GuardReply {
    /// No guards: the trampoline returns a null buffer pointer and a
    /// count of zero, and allocates nothing.
    Empty,
    /// At least one guard, marshaled for the native allocator.
    Buffers(GuardBuffers),
}

/// The defensive scan of a guard list from position `i` on: the first
/// violation it meets, or `None` when the rest of the list is clean.
pub open spec fn key_scan(gs: Seq<Seq<u8>>, i: int) -> Option<MarshalError>
    decreases gs.len() - i,
{
    if i < 0 || i >= gs.len() {
        None
    } else if gs[i].len() == 0 {
        Some(MarshalError::EmptyKey)
    } else if gs[i].len() > u32::MAX {
        Some(MarshalError::KeyTooLong)
    } else {
        key_scan(gs, i + 1)
    }
}

/// The violation marshaling reports for a guard list, if any: an
/// overlong list, else the first violating key in order.
pub open spec fn spec_marshal_error(gs: Seq<Seq<u8>>) -> Option<MarshalError> {
    if gs.len() > u32::MAX {
        Some(MarshalError::TooManyKeys)
    } else {
        key_scan(gs, 0)
    }
}

/// What a faithful reply to the guard list `gs` looks like: the empty
/// reply exactly for an empty list, otherwise every key in order with
/// its exact length.
pub open spec fn reply_matches(gs: Seq<Seq<u8>>, reply: GuardReply) -> bool {
    match reply {
        GuardReply::Empty => gs.len() == 0,
        GuardReply::Buffers(b) => {
            &&& gs.len() > 0
            &&& b.keys.deep_view() == gs
            &&& b.lens@.len() == gs.len()
            &&& forall|i: int| 0 <= i < gs.len() ==> b.lens@[i] == gs[i].len()
        },
    }
}

/// Exact statement of marshaling a guard list: either the first
/// violation the defensive scan meets, or a faithful reply.
pub open spec fn marshal_result_matches(
    gs: Seq<Seq<u8>>,
    r: Result<GuardReply, MarshalError>,
) -> bool {
    match r {
        Result::Ok(reply) => spec_marshal_error(gs) is None && reply_matches(gs, reply),
        Result::Err(e) => spec_marshal_error(gs) == Some(e),
    }
}

/// How many native allocator calls handing `reply` across the boundary
/// takes: none for the empty reply; otherwise one buffer array, one
/// length array, and one clone per key.
pub open spec fn spec_alloc_calls(reply: GuardReply) -> int {
    match reply {
        GuardReply::Empty => 0,
        GuardReply::Buffers(b) => 2 + b.keys@.len() as int,
    }
}

/// Empty-result allocation discipline: a reply crosses the boundary
/// without touching the allocator exactly when it is the empty reply,
/// and a faithful reply is empty exactly for an empty guard list.
pub proof fn lemma_empty_result_no_allocation(gs: Seq<Seq<u8>>, reply: GuardReply)
    requires
        reply_matches(gs, reply),
    ensures
        spec_alloc_calls(reply) == 0 <==> reply is Empty,
        reply is Empty <==> gs.len() == 0,
{
}

/// Runtime count of the native allocator calls a reply takes to cross
/// the boundary; zero exactly for the empty reply.
pub fn native_alloc_calls(reply: &GuardReply) -> (n: u64)
    requires
        spec_alloc_calls(*reply) <= u64::MAX,
    ensures
        n == spec_alloc_calls(*reply),
        n == 0 <==> reply is Empty,
{
    match reply {
        GuardReply::Empty => 0,
        GuardReply::Buffers(b) => 2 + b.keys.len() as u64,
    }
}

/// The computing part of the guard trampoline's output marshaling. The
/// scan is defensive: an empty key, a key too long for the native
/// length field, or a list too long for the native count field is
/// reported as the violation it is — the caller aborts on it rather
/// than corrupt the native engine. On a clean list the reply carries
/// every key, in order, with its exact length, and is the empty reply
/// exactly when the list is empty.
pub fn marshal_guards(guards: &Vec<Vec<u8>>) -> (r: Result<GuardReply, MarshalError>)
    ensures
        marshal_result_matches(guards.deep_view(), r),
{
    let ghost gs: Seq<Seq<u8>> = guards.deep_view();
    proof {
        lemma_keys_deep_view(*guards);
    }
    if guards.len() > u32::MAX as usize {
        return Err(MarshalError::TooManyKeys);
    }
    let mut keys: Vec<Vec<u8>> = Vec::new();
    let mut lens: Vec<u32> = Vec::new();
    let mut i: usize = 0;
    while i < guards.len()
        invariant
            i <= guards@.len(),
            gs == guards.deep_view(),
            gs.len() == guards@.len(),
            gs.len() <= u32::MAX,
            forall|j: int| 0 <= j < guards@.len() ==> gs[j] == guards@[j]@,
            key_scan(gs, 0) == key_scan(gs, i as int),
            keys@.len() == i,
            forall|j: int| 0 <= j < i ==> keys@[j]@ == gs[j],
            lens@.len() == i,
            forall|j: int| 0 <= j < i ==> lens@[j] == gs[j].len(),
        decreases guards@.len() - i,
    {
        let key = &guards[i];
        if key.len() == 0 {
            return Err(MarshalError::EmptyKey);
        }
        if key.len() > u32::MAX as usize {
            return Err(MarshalError::KeyTooLong);
        }
        lens.push(key.len() as u32);
        let cloned = clone_key(key);
        keys.push(cloned);
        i += 1;
    }
    if keys.len() == 0 {
        Ok(GuardReply::Empty)
    } else {
        proof {
            lemma_keys_deep_view(keys);
            assert(keys.deep_view() =~= gs);
        }
        Ok(GuardReply::Buffers(GuardBuffers { keys, lens }))
    }
}

/// The heap-allocated holder of one guard-placement implementation,
/// owned exclusively; the native engine keeps only an opaque pointer to
/// it, and every trampoline recovers the proxy from that pointer and
/// forwards through these methods.
pub struct CompactionGuardProxy<G: CompactionGuard> {
    guard: G,
}

impl<G: CompactionGuard> CompactionGuardProxy<G> {
    /// The implementation this proxy owns.
    pub closed spec fn spec_guard(&self) -> G {
        self.guard
    }

    pub fn new(guard: G) -> (r: Self)
        ensures
            r.spec_guard() == guard,
    {
        CompactionGuardProxy { guard }
    }

    /// Forwards the range query to the owned implementation.
    pub fn get_guards_in_range(&self, start: &[u8], end: &[u8]) -> (r: Vec<Vec<u8>>)
        ensures
            r.deep_view() == self.spec_guard().spec_guards(start@, end@),
    {
        self.guard.get_guards_in_range(start, end)
    }

    /// Computing part of the destroy trampoline: hands the owned
    /// implementation back. Taking the proxy by value is what makes a
    /// second reclaim impossible — ownership ends here.
    pub fn into_guard(self) -> (r: G)
        ensures
            r == self.spec_guard(),
    {
        self.guard
    }
}

/// The full computing part of the native get-guards trampoline: query
/// the capability for the range, then marshal the result defensively.
pub fn guard_reply<G: CompactionGuard>(
    proxy: &CompactionGuardProxy<G>,
    start: &[u8],
    end: &[u8],
) -> (r: Result<GuardReply, MarshalError>)
    ensures
        marshal_result_matches(proxy.spec_guard().spec_guards(start@, end@), r),
{
    let guards = proxy.get_guards_in_range(start, end);
    marshal_guards(&guards)
}

/// Single-owner handle for a registered guard capability. It owns the
/// proxy until teardown, and its teardown issues the native destroy —
/// which reclaims the proxy — exactly once.
pub struct CompactionGuardHandle<G: CompactionGuard> {
    proxy: Option<CompactionGuardProxy<G>>,
    destroy_calls: u64,
}

impl<G: CompactionGuard> CompactionGuardHandle<G> {
    #[verifier::type_invariant]
    spec fn type_inv(self) -> bool {
        &&& self.destroy_calls <= 1
        &&& (self.proxy is Some <==> self.destroy_calls == 0)
    }

    /// Whether the registered capability is still alive.
    pub closed spec fn is_live(&self) -> bool {
        self.proxy is Some
    }

    /// How many times the destroy trampoline has run for this proxy.
    pub closed spec fn spec_destroy_calls(&self) -> u64 {
        self.destroy_calls
    }

    /// The registered implementation (meaningful while the handle is
    /// live).
    pub closed spec fn spec_guard(&self) -> G {
        self.proxy->Some_0.spec_guard()
    }

    /// How many times the destroy trampoline has run: never more than
    /// once, and zero exactly as long as the handle is live.
    pub fn destroy_calls(&self) -> (n: u64)
        ensures
            n == self.spec_destroy_calls(),
            n <= 1,
            self.is_live() <==> n == 0,
    {
        proof {
            use_type_invariant(&*self);
        }
        self.destroy_calls
    }

    /// Exactly-once teardown. The first call issues the destroy
    /// trampoline and hands the reclaimed proxy back; any later call
    /// changes nothing and returns `None`, so the destroy count ends at
    /// one on every path — never zero, never two.
    pub fn teardown(&mut self) -> (freed: Option<CompactionGuardProxy<G>>)
        ensures
            !final(self).is_live(),
            final(self).spec_destroy_calls() == 1,
            freed is Some <==> old(self).is_live(),
            old(self).is_live() ==> freed->Some_0.spec_guard() == old(self).spec_guard(),
    {
        proof {
            use_type_invariant(&*self);
        }
        let mut drained = CompactionGuardHandle { proxy: None, destroy_calls: 1 };
        core::mem::swap(self, &mut drained);
        match drained.proxy {
            Some(proxy) => Some(proxy),
            None => None,
        }
    }
}

/// Registers a guard capability: boxes it into a proxy and hands the
/// proxy, with its trampoline table, to the native creation call. From
/// this point the native side owns the proxy pointer, the caller keeps
/// only the returned handle, and the destroy trampoline is the only
/// sanctioned reclaim path. This layer itself cannot fail, so the
/// result is always the live handle with a destroy count of zero.
pub fn new_compaction_gurad<G: CompactionGuard>(g: G) -> (r: Result<
    CompactionGuardHandle<G>,
    String,
>)
    ensures
        r is Ok,
        r->Ok_0.is_live(),
        r->Ok_0.spec_destroy_calls() == 0,
        r->Ok_0.spec_guard() == g,
{
    Ok(CompactionGuardHandle { proxy: Some(CompactionGuardProxy::new(g)), destroy_calls: 0 })
}

} // verus!

