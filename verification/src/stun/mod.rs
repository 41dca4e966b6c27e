//! Learning the public address of a UDP socket from a STUN server.
//!
//! The socket periodically sends a STUN binding request to a public STUN
//! server. Among the datagrams it receives, those that look like STUN
//! messages are decoded; the XOR-MAPPED-ADDRESS of a response becomes the
//! socket's reported local address, in place of the address it is bound to.

use vstd::prelude::*;

verus! {

/// An IP address (4 or 16 octets, network order) and a port.
pub struct SocketAddress {
    pub ip: Vec<u8>,
    pub port: u16,
}

impl View for SocketAddress {
    type V = (Seq<u8>, u16);

    open spec fn view(&self) -> (Seq<u8>, u16) {
        (self.ip@, self.port)
    }
}

impl SocketAddress {
    pub open spec fn wf(&self) -> bool {
        self.ip@.len() == 4 || self.ip@.len() == 16
    }

    pub fn clone_address(&self) -> (copy: SocketAddress)
        ensures
            copy@ == self@,
    {
        SocketAddress { ip: self.ip.clone(), port: self.port }
    }
}

/// The STUN magic cookie, in network order.
pub open spec fn magic_cookie() -> Seq<u8> {
    seq![0x21u8, 0x12u8, 0xA4u8, 0x42u8]
}

/// Length of a STUN message header.
pub const STUN_HEADER_LEN: usize = 20;

/// Seconds between two binding requests.
pub const STUN_REQUEST_INTERVAL_SECS: u64 = 10;

/// Port of the public STUN server.
pub const STUN_SERVER_PORT: u16 = 19302;

/// Whether a datagram could be a STUN message: at least a header long, with
/// the magic cookie in bytes 4 to 8.
pub open spec fn looks_like_stun(datagram: Seq<u8>) -> bool {
    datagram.len() >= STUN_HEADER_LEN && datagram.subrange(4, 8) == magic_cookie()
}

/// The bytes of a binding request with an all-zero transaction id: type
/// 0x0001, no attributes, the magic cookie.
pub open spec fn binding_request_bytes() -> Seq<u8> {
    seq![0x00u8, 0x01u8, 0x00u8, 0x00u8, 0x21u8, 0x12u8, 0xA4u8, 0x42u8]
        + Seq::new(12, |i: int| 0u8)
}

/// The XOR-MAPPED-ADDRESS that the `stun` crate decodes from a datagram, if
/// the datagram decodes as a STUN message that carries one.
pub uninterp spec fn stun_mapped_address(datagram: Seq<u8>) -> Option<(Seq<u8>, u16)>;

/// Builds a binding request with `stun::message::Message::build` and returns
/// its raw bytes: `Message::new` leaves the transaction id zero, and `build`
/// writes the header and the type of `BINDING_REQUEST`.
#[verifier::external_body]
fn stun_binding_request() -> (request: Vec<u8>)
    ensures
        request@ == binding_request_bytes(),
{
    let mut request = stun::message::Message::new();
    request.build(&[Box::new(stun::message::BINDING_REQUEST)]).unwrap();
    request.raw
}

/// Decodes the first `len` bytes of `buf` with `stun::message::Message::write`,
/// then reads XOR-MAPPED-ADDRESS with `XorMappedAddress::get_from`. The result
/// is the named decoding; an address has 4 or 16 octets.
#[verifier::external_body]
fn stun_xor_mapped_address(buf: &[u8], len: usize) -> (mapped: Option<SocketAddress>)
    requires
        len <= buf@.len(),
    ensures
        match mapped {
            Some(a) => stun_mapped_address(buf@.take(len as int)) == Some(a@) && a.wf(),
            None => stun_mapped_address(buf@.take(len as int)) is None,
        },
{
    let mut response = stun::message::Message::new();
    let mut xor_addr = stun::xoraddr::XorMappedAddress::default();
    if response.write(&buf[..len]).is_err() || stun::message::Getter::get_from(&mut xor_addr, &response).is_err() {
        return None;
    }
    let ip = match xor_addr.ip {
        core::net::IpAddr::V4(v4) => v4.octets().to_vec(),
        core::net::IpAddr::V6(v6) => v6.octets().to_vec(),
    };
    Some(SocketAddress { ip, port: xor_addr.port })
}

/// The binding request that the socket sends to the STUN server.
pub fn binding_request() -> (request: Vec<u8>)
    ensures
        request@ == binding_request_bytes(),
        looks_like_stun(request@),
{
    let request = stun_binding_request();
    assert(request@.subrange(4, 8) =~= magic_cookie());
    request
}

/// The public STUN server that binding requests go to.
pub fn stun_server() -> (server: SocketAddress)
    ensures
        server@ == (seq![74u8, 125u8, 250u8, 129u8], STUN_SERVER_PORT),
        server.wf(),
{
    let mut ip: Vec<u8> = Vec::new();
    ip.push(74);
    ip.push(125);
    ip.push(250);
    ip.push(129);
    assert(ip@ =~= seq![74u8, 125u8, 250u8, 129u8]);
    SocketAddress { ip, port: STUN_SERVER_PORT }
}

/// Whether the first `len` bytes of `buf` could be a STUN message.
pub fn is_stun_candidate(buf: &[u8], len: usize) -> (candidate: bool)
    requires
        len <= buf@.len(),
    ensures
        candidate == looks_like_stun(buf@.take(len as int)),
{
    let ghost d = buf@.take(len as int);
    if len < STUN_HEADER_LEN {
        return false;
    }
    let candidate = buf[4] == 0x21 && buf[5] == 0x12 && buf[6] == 0xA4 && buf[7] == 0x42;
    assert(d.subrange(4, 8) =~= seq![buf@[4], buf@[5], buf@[6], buf@[7]]);
    if !candidate {
        assert(d.subrange(4, 8) != magic_cookie()) by {
            if d.subrange(4, 8) == magic_cookie() {
                assert(d.subrange(4, 8)[0] == magic_cookie()[0]);
                assert(d.subrange(4, 8)[1] == magic_cookie()[1]);
                assert(d.subrange(4, 8)[2] == magic_cookie()[2]);
                assert(d.subrange(4, 8)[3] == magic_cookie()[3]);
            }
        }
    } else {
        assert(d.subrange(4, 8) =~= magic_cookie());
    }
    candidate
}

/// The public address after one received datagram: a STUN datagram that
/// decodes with a mapped address replaces it; anything else leaves it.
pub open spec fn after_datagram(public: Option<(Seq<u8>, u16)>, datagram: Seq<u8>) -> Option<
    (Seq<u8>, u16),
> {
    if looks_like_stun(datagram) {
        match stun_mapped_address(datagram) {
            Some(a) => Some(a),
            None => public,
        }
    } else {
        public
    }
}

/// The public address after a sequence of received datagrams, in order.
pub open spec fn after_datagrams(public: Option<(Seq<u8>, u16)>, datagrams: Seq<Seq<u8>>) -> Option<
    (Seq<u8>, u16),
>
    decreases datagrams.len(),
{
    if datagrams.len() == 0 {
        public
    } else {
        after_datagram(after_datagrams(public, datagrams.drop_last()), datagrams.last())
    }
}

/// The datagrams of one receive call: the first `lens[i]` bytes of `bufs[i]`,
/// for the first `count` buffers.
pub open spec fn received_datagrams(bufs: Seq<&[u8]>, lens: Seq<usize>, count: nat) -> Seq<
    Seq<u8>,
> {
    Seq::new(count, |i: int| bufs[i]@.take(lens[i] as int))
}

/// What the socket has learnt of its public address.
pub struct PublicAddressTracker {
    public: Option<SocketAddress>,
}

impl View for PublicAddressTracker {
    type V = Option<(Seq<u8>, u16)>;

    closed spec fn view(&self) -> Option<(Seq<u8>, u16)> {
        match self.public {
            Some(a) => Some(a@),
            None => None,
        }
    }
}

impl PublicAddressTracker {
    /// A learnt address is always an IPv4 or an IPv6 address.
    #[verifier::type_invariant]
    spec fn addresses_well_formed(self) -> bool {
        self.public matches Some(a) ==> a.wf()
    }

    /// A tracker that has learnt nothing yet.
    pub fn new() -> (tracker: PublicAddressTracker)
        ensures
            tracker@ is None,
    {
        PublicAddressTracker { public: None }
    }

    /// Takes note of one received datagram, the first `len` bytes of `buf`.
    pub fn observe(&mut self, buf: &[u8], len: usize)
        requires
            len <= buf@.len(),
        ensures
            final(self)@ == after_datagram(old(self)@, buf@.take(len as int)),
    {
        if !is_stun_candidate(buf, len) {
            return;
        }
        match stun_xor_mapped_address(buf, len) {
            Some(addr) => {
                self.public = Some(addr);
            },
            None => {},
        }
    }

    /// Takes note of the datagrams of one receive call, in order.
    pub fn observe_received(&mut self, bufs: &[&[u8]], lens: &[usize], count: usize)
        requires
            count <= bufs@.len(),
            count <= lens@.len(),
            forall|i: int| 0 <= i < count ==> lens@[i] <= (#[trigger] bufs@[i])@.len(),
        ensures
            final(self)@ == after_datagrams(
                old(self)@,
                received_datagrams(bufs@, lens@, count as nat),
            ),
    {
        let mut index: usize = 0;
        while index < count
            invariant
                index <= count,
                count <= bufs@.len(),
                count <= lens@.len(),
                forall|i: int| 0 <= i < count ==> lens@[i] <= (#[trigger] bufs@[i])@.len(),
                self@ == after_datagrams(
                    old(self)@,
                    received_datagrams(bufs@, lens@, index as nat),
                ),
            decreases count - index,
        {
            let ghost before = received_datagrams(bufs@, lens@, index as nat);
            let ghost now = received_datagrams(bufs@, lens@, (index + 1) as nat);
            assert(now.drop_last() =~= before);
            self.observe(bufs[index], lens[index]);
            index = index + 1;
        }
    }

    /// The address the socket reports as its own: the public address learnt
    /// from the STUN server if there is one, else `bound`, what the socket
    /// itself reports.
    pub fn local_addr<E>(&self, bound: Result<SocketAddress, E>) -> (reported: Result<
        SocketAddress,
        E,
    >)
        ensures
            match self@ {
                Some(a) => reported matches Ok(r) && r@ == a && r.wf(),
                None => reported == bound,
            },
    {
        proof {
            use_type_invariant(self);
        }
        match &self.public {
            Some(addr) => Ok(addr.clone_address()),
            None => bound,
        }
    }
}

/// A datagram that does not look like a STUN message never changes what the
/// socket reports.
pub proof fn lemma_foreign_datagram_ignored(public: Option<(Seq<u8>, u16)>, datagram: Seq<u8>)
    requires
        !looks_like_stun(datagram),
    ensures
        after_datagram(public, datagram) == public,
{
}

/// After a batch of datagrams the public address is the one carried by the
/// last STUN response in the batch that decodes with a mapped address; if no
/// datagram does, it is unchanged.
pub proof fn lemma_last_mapped_address_wins(
    public: Option<(Seq<u8>, u16)>,
    datagrams: Seq<Seq<u8>>,
    k: int,
)
    requires
        0 <= k < datagrams.len(),
        looks_like_stun(datagrams[k]),
        stun_mapped_address(datagrams[k]) is Some,
        forall|j: int|
            k < j < datagrams.len() ==> !looks_like_stun(#[trigger] datagrams[j])
                || stun_mapped_address(datagrams[j]) is None,
    ensures
        after_datagrams(public, datagrams) == stun_mapped_address(datagrams[k]),
    decreases datagrams.len(),
{
    let t = datagrams.drop_last();
    if k < datagrams.len() - 1 {
        assert forall|j: int| k < j < t.len() implies !looks_like_stun(#[trigger] t[j])
            || stun_mapped_address(t[j]) is None by {
            assert(t[j] == datagrams[j]);
        }
        lemma_last_mapped_address_wins(public, t, k);
        let last = datagrams.len() - 1;
        assert(!looks_like_stun(datagrams[last]) || stun_mapped_address(datagrams[last]) is None);
    }
}

/// A batch in which no datagram is a STUN response with a mapped address
/// leaves the public address as it was.
pub proof fn lemma_no_mapped_address_keeps(
    public: Option<(Seq<u8>, u16)>,
    datagrams: Seq<Seq<u8>>,
)
    requires
        forall|j: int|
            0 <= j < datagrams.len() ==> !looks_like_stun(#[trigger] datagrams[j])
                || stun_mapped_address(datagrams[j]) is None,
    ensures
        after_datagrams(public, datagrams) == public,
    decreases datagrams.len(),
{
    if datagrams.len() > 0 {
        let t = datagrams.drop_last();
        assert forall|j: int| 0 <= j < t.len() implies !looks_like_stun(#[trigger] t[j])
            || stun_mapped_address(t[j]) is None by {
            assert(t[j] == datagrams[j]);
        }
        lemma_no_mapped_address_keeps(public, t);
        let last = datagrams.len() - 1;
        assert(!looks_like_stun(datagrams[last]) || stun_mapped_address(datagrams[last]) is None);
    }
}

/// Only the received part of each buffer counts: two receive calls whose
/// buffers agree on their received bytes leave the same public address.
pub proof fn lemma_only_received_bytes_count(
    public: Option<(Seq<u8>, u16)>,
    bufs: Seq<&[u8]>,
    lens: Seq<usize>,
    other_bufs: Seq<&[u8]>,
    other_lens: Seq<usize>,
    count: nat,
)
    requires
        forall|i: int|
            0 <= i < count ==> (#[trigger] bufs[i])@.take(lens[i] as int) == other_bufs[i]@.take(
                other_lens[i] as int,
            ),
    ensures
        after_datagrams(public, received_datagrams(bufs, lens, count)) == after_datagrams(
            public,
            received_datagrams(other_bufs, other_lens, count),
        ),
{
    assert(received_datagrams(bufs, lens, count) =~= received_datagrams(
        other_bufs,
        other_lens,
        count,
    ));
}

/// Every datagram of a receive call counts, in order, whatever came before
/// it: the `i`-th datagram is exactly the first `lens[i]` bytes of `bufs[i]`.
pub proof fn lemma_every_datagram_counts(bufs: Seq<&[u8]>, lens: Seq<usize>, count: nat, i: int)
    requires
        0 <= i < count,
    ensures
        received_datagrams(bufs, lens, count).len() == count,
        received_datagrams(bufs, lens, count)[i] == bufs[i]@.take(lens[i] as int),
{
}

/// In one receive call, a STUN response with a mapped address sets the
/// public address even when datagrams that are not STUN come before it in
/// the batch; only a later mapped STUN response in the batch overrides it.
pub proof fn lemma_batch_response_sets_address(
    public: Option<(Seq<u8>, u16)>,
    bufs: Seq<&[u8]>,
    lens: Seq<usize>,
    count: nat,
    k: int,
)
    requires
        0 <= k < count,
        looks_like_stun(bufs[k]@.take(lens[k] as int)),
        stun_mapped_address(bufs[k]@.take(lens[k] as int)) is Some,
        forall|j: int|
            k < j < count ==> !looks_like_stun(#[trigger] bufs[j]@.take(lens[j] as int))
                || stun_mapped_address(bufs[j]@.take(lens[j] as int)) is None,
    ensures
        after_datagrams(public, received_datagrams(bufs, lens, count)) == stun_mapped_address(
            bufs[k]@.take(lens[k] as int),
        ),
{
    let d = received_datagrams(bufs, lens, count);
    assert(d[k] == bufs[k]@.take(lens[k] as int));
    assert forall|j: int| k < j < d.len() implies !looks_like_stun(#[trigger] d[j])
        || stun_mapped_address(d[j]) is None by {
        assert(d[j] == bufs[j]@.take(lens[j] as int));
    }
    lemma_last_mapped_address_wins(public, d, k);
}

/// Once a public address is learnt, no datagram makes the socket forget it:
/// some public address is reported ever after.
pub proof fn lemma_learnt_address_stays(public: (Seq<u8>, u16), datagrams: Seq<Seq<u8>>)
    ensures
        after_datagrams(Some(public), datagrams) is Some,
    decreases datagrams.len(),
{
    if datagrams.len() > 0 {
        lemma_learnt_address_stays(public, datagrams.drop_last());
    }
}

} // verus!
