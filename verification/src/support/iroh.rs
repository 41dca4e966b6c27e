//! How the proxy's iroh endpoint is configured: the ALPN that both sides
//! speak, the QUIC transport tuning taken from the environment, and the list
//! of external addresses to advertise.

use crate::support::builder::{
    n0_endpoint_builder, parses_as_socket_addr, quic_transport_config, with_bind_addr,
    EndpointBuilder,
};
use vstd::prelude::*;
use vstd::string::*;

verus! {

broadcast use vstd::string::group_string_axioms;

/// The ALPN under which the proxy's QUIC connections are accepted.
pub const STUN_QUIC_ALPN: &'static str = "stun-quic";

#[verifier::external_type_specification]
#[verifier::external_body]
pub struct ExQuicTransportConfig(iroh::endpoint::QuicTransportConfig);

#[verifier::external_type_specification]
#[verifier::external_body]
pub struct ExEndpointBuilder(iroh::endpoint::Builder);

#[verifier::external_type_specification]
#[verifier::external_body]
pub struct ExInvalidSocketAddr(iroh::endpoint::InvalidSocketAddr);

/// The largest QUIC variable-length integer, 2^62 - 1.
pub const MAX_VARINT: u64 = 4611686018427387903;

/// The connection receive window of iroh's transport configuration when
/// none is set: the largest variable-length integer.
pub const DEFAULT_RECEIVE_WINDOW: u64 = 4611686018427387903;

/// The send window of iroh's transport configuration when none is set.
pub const DEFAULT_SEND_WINDOW: u64 = 10000000;

/// The per-stream receive window of iroh's transport configuration when
/// none is set.
pub const DEFAULT_STREAM_RECEIVE_WINDOW: u64 = 1250000;

/// The initial window of a default BBR congestion controller.
pub const DEFAULT_BBR_INITIAL_WINDOW: u64 = 12000;

/// The BBR congestion controller, by its initial window.
#[derive(Clone, Copy)]
pub struct CongestionControl {
    pub bbr_initial_window: u64,
}

/// The QUIC transport tuning of the proxy's endpoint: its flow-control
/// windows and its BBR congestion controller.
#[derive(Clone, Copy)]
pub struct QuicTuning {
    pub receive_window: u64,
    pub send_window: u64,
    pub stream_receive_window: u64,
    pub congestion: CongestionControl,
}

impl QuicTuning {
    /// The windows that QUIC carries as variable-length integers fit in one.
    pub open spec fn wf(self) -> bool {
        self.receive_window <= MAX_VARINT && self.stream_receive_window <= MAX_VARINT
    }
}

/// A window given in the environment, or the default one.
pub open spec fn window_or_default(window: Option<u32>, default: u64) -> u64 {
    match window {
        Some(v) => v as u64,
        None => default,
    }
}

/// The congestion controller for an optional initial window.
pub open spec fn congestion_for(initial_window: Option<u64>) -> CongestionControl {
    CongestionControl {
        bbr_initial_window: match initial_window {
            Some(v) => v,
            None => DEFAULT_BBR_INITIAL_WINDOW,
        },
    }
}

/// The tuning for the windows and initial window given in the environment.
pub open spec fn tuning_for(
    receive_window: Option<u32>,
    send_window: Option<u32>,
    stream_receive_window: Option<u32>,
    bbr_initial_window: Option<u64>,
) -> QuicTuning {
    QuicTuning {
        receive_window: window_or_default(receive_window, DEFAULT_RECEIVE_WINDOW),
        send_window: window_or_default(send_window, DEFAULT_SEND_WINDOW),
        stream_receive_window: window_or_default(
            stream_receive_window,
            DEFAULT_STREAM_RECEIVE_WINDOW,
        ),
        congestion: congestion_for(bbr_initial_window),
    }
}

/// The BBR congestion controller, with the initial window of
/// `QUIC_BBR_INITIAL_WINDOW` when that is set and the default one otherwise.
pub fn get_congestion_controller(initial_window: Option<u64>) -> (control: CongestionControl)
    ensures
        control == congestion_for(initial_window),
        initial_window matches Some(v) ==> control.bbr_initial_window == v,
        initial_window is None ==> control.bbr_initial_window == DEFAULT_BBR_INITIAL_WINDOW,
{
    match initial_window {
        Some(v) => CongestionControl { bbr_initial_window: v },
        None => CongestionControl { bbr_initial_window: DEFAULT_BBR_INITIAL_WINDOW },
    }
}

/// The QUIC transport tuning of the proxy's endpoint: BBR congestion
/// control, and each flow-control window that the environment sets; a window
/// that is not set keeps iroh's default.
pub fn transport_config(
    receive_window: Option<u32>,
    send_window: Option<u32>,
    stream_receive_window: Option<u32>,
    bbr_initial_window: Option<u64>,
) -> (tuning: QuicTuning)
    ensures
        tuning == tuning_for(receive_window, send_window, stream_receive_window, bbr_initial_window),
        tuning.wf(),
        receive_window matches Some(v) ==> tuning.receive_window == v,
        receive_window is None ==> tuning.receive_window == DEFAULT_RECEIVE_WINDOW,
        send_window matches Some(v) ==> tuning.send_window == v,
        send_window is None ==> tuning.send_window == DEFAULT_SEND_WINDOW,
        stream_receive_window matches Some(v) ==> tuning.stream_receive_window == v,
        stream_receive_window is None ==> tuning.stream_receive_window
            == DEFAULT_STREAM_RECEIVE_WINDOW,
        bbr_initial_window matches Some(v) ==> tuning.congestion.bbr_initial_window == v,
        bbr_initial_window is None ==> tuning.congestion.bbr_initial_window
            == DEFAULT_BBR_INITIAL_WINDOW,
{
    let receive = match receive_window {
        Some(v) => v as u64,
        None => DEFAULT_RECEIVE_WINDOW,
    };
    let send = match send_window {
        Some(v) => v as u64,
        None => DEFAULT_SEND_WINDOW,
    };
    let stream = match stream_receive_window {
        Some(v) => v as u64,
        None => DEFAULT_STREAM_RECEIVE_WINDOW,
    };
    QuicTuning {
        receive_window: receive,
        send_window: send,
        stream_receive_window: stream,
        congestion: get_congestion_controller(bbr_initial_window),
    }
}

/// The builder of the proxy's endpoint: the n0 preset with the transport
/// tuning that the environment gives, bound to `bind_addr` (the text of
/// `BIND_ADDR`) when one is given. A bind address is accepted exactly when it
/// is the text of a socket address; without one the preset's sockets are
/// used. Binding is left to the caller.
pub fn endpoint_builder(
    receive_window: Option<u32>,
    send_window: Option<u32>,
    stream_receive_window: Option<u32>,
    bbr_initial_window: Option<u64>,
    bind_addr: Option<&str>,
) -> (built: Result<EndpointBuilder, iroh::endpoint::InvalidSocketAddr>)
    ensures
        built is Ok <==> match bind_addr {
            Some(a) => parses_as_socket_addr(a@),
            None => true,
        },
        built matches Ok(b) ==> b.tuning() == tuning_for(
            receive_window,
            send_window,
            stream_receive_window,
            bbr_initial_window,
        ),
        built matches Ok(b) ==> b.bind_addr() == match bind_addr {
            Some(a) => Some(a@),
            None => None::<Seq<char>>,
        },
{
    let tuning = transport_config(
        receive_window,
        send_window,
        stream_receive_window,
        bbr_initial_window,
    );
    let fresh = n0_endpoint_builder(quic_transport_config(&tuning));
    match bind_addr {
        Some(addr) => with_bind_addr(fresh, addr),
        None => Ok(fresh),
    }
}

/// A set initial window is used as given, whatever its value; an unset one
/// is BBR's default.
pub proof fn lemma_initial_window_as_given(initial_window: Option<u64>)
    ensures
        initial_window matches Some(v) ==> congestion_for(initial_window).bbr_initial_window == v,
        initial_window is None ==> congestion_for(initial_window).bbr_initial_window
            == DEFAULT_BBR_INITIAL_WINDOW,
{
}

/// Each setting of the tuning is the value given for it, or iroh's default
/// when it is unset.
pub proof fn lemma_each_setting_as_given(
    receive_window: Option<u32>,
    send_window: Option<u32>,
    stream_receive_window: Option<u32>,
    bbr_initial_window: Option<u64>,
)
    ensures
        ({
            let t = tuning_for(receive_window, send_window, stream_receive_window, bbr_initial_window);
            &&& receive_window matches Some(v) ==> t.receive_window == v
            &&& receive_window is None ==> t.receive_window == DEFAULT_RECEIVE_WINDOW
            &&& send_window matches Some(v) ==> t.send_window == v
            &&& send_window is None ==> t.send_window == DEFAULT_SEND_WINDOW
            &&& stream_receive_window matches Some(v) ==> t.stream_receive_window == v
            &&& stream_receive_window is None ==> t.stream_receive_window
                == DEFAULT_STREAM_RECEIVE_WINDOW
            &&& bbr_initial_window matches Some(v) ==> t.congestion.bbr_initial_window == v
            &&& bbr_initial_window is None ==> t.congestion.bbr_initial_window
                == DEFAULT_BBR_INITIAL_WINDOW
        }),
{
}

/// Each window depends on its own setting alone: changing the other settings
/// leaves it as it is.
pub proof fn lemma_windows_independent(
    receive: Option<u32>,
    send: Option<u32>,
    stream: Option<u32>,
    bbr: Option<u64>,
    other_receive: Option<u32>,
    other_send: Option<u32>,
    other_stream: Option<u32>,
    other_bbr: Option<u64>,
)
    ensures
        tuning_for(receive, other_send, other_stream, other_bbr).receive_window == tuning_for(
            receive,
            send,
            stream,
            bbr,
        ).receive_window,
        tuning_for(other_receive, send, other_stream, other_bbr).send_window == tuning_for(
            receive,
            send,
            stream,
            bbr,
        ).send_window,
        tuning_for(other_receive, other_send, stream, other_bbr).stream_receive_window
            == tuning_for(receive, send, stream, bbr).stream_receive_window,
        tuning_for(other_receive, other_send, other_stream, bbr).congestion == tuning_for(
            receive,
            send,
            stream,
            bbr,
        ).congestion,
{
}

/// The pieces of a text between its commas, as `str::split(',')` gives them:
/// one more piece than there are commas, empty pieces included.
pub open spec fn split_on_commas(text: Seq<char>) -> Seq<Seq<char>>
    decreases text.len(),
{
    if text.len() == 0 {
        seq![Seq::<char>::empty()]
    } else {
        let pieces = split_on_commas(text.drop_last());
        if text.last() == ',' {
            pieces.push(Seq::<char>::empty())
        } else {
            pieces.update(pieces.len() - 1, pieces.last().push(text.last()))
        }
    }
}

/// The pieces put back together with a comma between each two.
pub open spec fn join_with_commas(pieces: Seq<Seq<char>>) -> Seq<char>
    decreases pieces.len(),
{
    if pieces.len() <= 1 {
        if pieces.len() == 1 {
            pieces[0]
        } else {
            Seq::<char>::empty()
        }
    } else {
        join_with_commas(pieces.drop_last()) + seq![','] + pieces.last()
    }
}

proof fn lemma_split_nonempty(text: Seq<char>)
    ensures
        split_on_commas(text).len() >= 1,
    decreases text.len(),
{
    if text.len() > 0 {
        lemma_split_nonempty(text.drop_last());
    }
}

/// Splitting at the commas and joining with commas gives back the text, and
/// no piece holds a comma.
pub proof fn lemma_split_join(text: Seq<char>)
    ensures
        join_with_commas(split_on_commas(text)) == text,
        forall|i: int|
            0 <= i < split_on_commas(text).len() ==> !(#[trigger] split_on_commas(text)[i]).contains(
                ',',
            ),
    decreases text.len(),
{
    if text.len() > 0 {
        let t = text.drop_last();
        let c = text.last();
        let p = split_on_commas(t);
        lemma_split_join(t);
        lemma_split_nonempty(t);
        let s = split_on_commas(text);
        if c == ',' {
            assert(s.drop_last() =~= p);
            assert(join_with_commas(s) =~= join_with_commas(p) + seq![','] + Seq::<char>::empty());
            assert(text =~= t + seq![',']);
            assert forall|i: int| 0 <= i < s.len() implies !(#[trigger] s[i]).contains(',') by {
                if i < p.len() {
                    assert(s[i] == p[i]);
                } else {
                    assert(s[i] =~= Seq::<char>::empty());
                }
            }
        } else {
            let last = p.last().push(c);
            assert(s =~= p.update(p.len() - 1, last));
            assert(!p.last().contains(','));
            assert(!last.contains(',')) by {
                if last.contains(',') {
                    let k = choose|k: int| 0 <= k < last.len() && last[k] == ',';
                    if k < p.last().len() {
                        assert(p.last()[k] == last[k]);
                    }
                }
            }
            if p.len() == 1 {
                assert(join_with_commas(s) == s[0]);
                assert(join_with_commas(p) == p[0]);
                assert(text =~= t.push(c));
            } else {
                assert(s.drop_last() =~= p.drop_last());
                assert(join_with_commas(p) == join_with_commas(p.drop_last()) + seq![','] + p.last());
                assert(join_with_commas(s) == join_with_commas(s.drop_last()) + seq![','] + s.last());
                assert(join_with_commas(s) =~= join_with_commas(p).push(c));
                assert(text =~= t.push(c));
            }
            assert forall|i: int| 0 <= i < s.len() implies !(#[trigger] s[i]).contains(',') by {
                if i < p.len() - 1 {
                    assert(s[i] == p[i]);
                }
            }
        }
    }
}

proof fn lemma_split_prefix_step(text: Seq<char>, i: int)
    requires
        0 <= i < text.len(),
    ensures
        text.take(i + 1).drop_last() =~= text.take(i),
        text.take(i + 1).last() == text[i],
{
}

/// The addresses listed in `QUIC_EXTERNAL_ADDRESS`, separated by commas.
pub fn external_addresses(text: &str) -> (addresses: Vec<String>)
    ensures
        addresses@.len() == split_on_commas(text@).len(),
        forall|i: int|
            0 <= i < addresses@.len() ==> (#[trigger] addresses@[i])@ == split_on_commas(text@)[i],
{
    let len = text.unicode_len();
    let mut addresses: Vec<String> = Vec::new();
    let mut start: usize = 0;
    let mut index: usize = 0;
    proof {
        lemma_split_nonempty(text@);
        assert(text@.take(0) =~= Seq::<char>::empty());
    }
    while index < len
        invariant
            len == text@.len(),
            start <= index <= len,
            addresses@.len() + 1 == split_on_commas(text@.take(index as int)).len(),
            forall|i: int|
                0 <= i < addresses@.len() ==> (#[trigger] addresses@[i])@ == split_on_commas(
                    text@.take(index as int),
                )[i],
            split_on_commas(text@.take(index as int)).last() == text@.subrange(
                start as int,
                index as int,
            ),
        decreases len - index,
    {
        let ghost before = text@.take(index as int);
        let ghost pieces = split_on_commas(before);
        let c = text.get_char(index);
        proof {
            lemma_split_prefix_step(text@, index as int);
        }
        let ghost after = text@.take(index as int + 1);
        if c == ',' {
            let piece = text.substring_char(start, index);
            addresses.push(String::from_str(piece));
            start = index + 1;
            proof {
                assert(split_on_commas(after) == pieces.push(Seq::<char>::empty()));
                assert(text@.subrange(start as int, index as int + 1) =~= Seq::<char>::empty());
            }
        } else {
            proof {
                lemma_split_nonempty(before);
                assert(split_on_commas(after) == pieces.update(
                    pieces.len() - 1,
                    pieces.last().push(c),
                ));
                assert(text@.subrange(start as int, index as int + 1) =~= text@.subrange(
                    start as int,
                    index as int,
                ).push(c));
            }
        }
        index = index + 1;
    }
    let piece = text.substring_char(start, len);
    addresses.push(String::from_str(piece));
    assert(text@.take(len as int) =~= text@);
    addresses
}

} // verus!
