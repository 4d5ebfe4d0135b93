//! The OSC message model and codec boundary.
//!
//! Inbound datagrams are decoded through the `rosc` crate into the bridge's
//! own packet model, bundles are flattened (verified) into a linear run of
//! messages, and outbound single-integer console messages are encoded back to
//! bytes through `rosc`. Address validation and wildcard pattern matching are
//! also delegated to `rosc` behind trusted wrappers.

use vstd::prelude::*;

verus! {

broadcast use
    vstd::seq::axiom_seq_index_decreases,
    vstd::seq::axiom_seq_subrange_decreases,
    vstd::std_specs::vec::axiom_vec_decreases_to_view,
    vstd::std_specs::vec::axiom_vec_index_decreases;

/// One OSC argument of the kinds the bridge understands. A float argument is
/// carried by its IEEE 754 bit pattern: the bridge never computes with the
/// level, it only passes it through to the fader emitter. Arguments of any
/// other OSC type play no role in dispatch and are kept as `Other`.
pub enum OscArg {
    Int(i32),
    Float(u32),
    Str(String),
    Other,
}

/// The mathematical content of an `OscArg`.
pub enum ArgV {
    Int(i32),
    Float(u32),
    Str(Seq<char>),
    Other,
}

impl View for OscArg {
    type V = ArgV;

    open spec fn view(&self) -> ArgV {
        match self {
            OscArg::Int(v) => ArgV::Int(*v),
            OscArg::Float(b) => ArgV::Float(*b),
            OscArg::Str(s) => ArgV::Str(s@),
            OscArg::Other => ArgV::Other,
        }
    }
}

/// An inbound OSC message: an address and its arguments.
pub struct Message {
    pub addr: String,
    pub args: Vec<OscArg>,
}

/// The mathematical content of a `Message`.
pub struct MessageV {
    pub addr: Seq<char>,
    pub args: Seq<ArgV>,
}

impl View for Message {
    type V = MessageV;

    open spec fn view(&self) -> MessageV {
        MessageV { addr: self.addr@, args: self.args@.map_values(|a: OscArg| a@) }
    }
}

/// An OSC packet: a single message, or a bundle of nested packets.
pub enum Packet {
    Message(Message),
    Bundle(Vec<Packet>),
}

/// An outbound console message. Every command the bridge synthesizes carries
/// exactly one integer argument.
#[derive(Debug)]
pub struct OutMessage {
    pub addr: String,
    pub value: i32,
}

/// The views of a run of messages.
pub open spec fn message_views(s: Seq<Message>) -> Seq<MessageV> {
    s.map_values(|m: Message| m@)
}

/// The views of a run of arguments.
pub open spec fn arg_views(s: Seq<OscArg>) -> Seq<ArgV> {
    s.map_values(|a: OscArg| a@)
}

/// The messages of a packet in depth-first order: a single message yields a
/// one-element run, a bundle yields the runs of its parts in order.
pub open spec fn flatten_views(p: Packet) -> Seq<MessageV>
    decreases p,
{
    match p {
        Packet::Message(m) => seq![m@],
        Packet::Bundle(content) => flatten_bundle_views(content@),
    }
}

pub open spec fn flatten_bundle_views(s: Seq<Packet>) -> Seq<MessageV>
    decreases s,
{
    if s.len() == 0 {
        seq![]
    } else {
        flatten_views(s[0]) + flatten_bundle_views(s.subrange(1, s.len() as int))
    }
}

pub proof fn lemma_flatten_bundle_push(s: Seq<Packet>, x: Packet)
    ensures
        flatten_bundle_views(s.push(x)) == flatten_bundle_views(s) + flatten_views(x),
    decreases s.len(),
{
    if s.len() == 0 {
        assert(s.push(x)[0] == x);
        assert(s.push(x).subrange(1, s.push(x).len() as int) =~= Seq::<Packet>::empty());
        assert(flatten_bundle_views(s.push(x)) == flatten_views(x) + flatten_bundle_views(
            Seq::<Packet>::empty(),
        ));
        assert(flatten_views(x) + Seq::<MessageV>::empty() =~= flatten_views(x));
        assert(Seq::<MessageV>::empty() + flatten_views(x) =~= flatten_views(x));
    } else {
        lemma_flatten_bundle_push(s.subrange(1, s.len() as int), x);
        assert(s.push(x).subrange(1, s.push(x).len() as int) =~= s.subrange(
            1,
            s.len() as int,
        ).push(x));
        assert(s.push(x)[0] == s[0]);
        assert(flatten_views(s[0]) + (flatten_bundle_views(s.subrange(1, s.len() as int))
            + flatten_views(x)) =~= (flatten_views(s[0]) + flatten_bundle_views(
            s.subrange(1, s.len() as int),
        )) + flatten_views(x));
    }
}

fn clone_arg(a: &OscArg) -> (r: OscArg)
    ensures
        r@ == a@,
{
    match a {
        OscArg::Int(v) => OscArg::Int(*v),
        OscArg::Float(b) => OscArg::Float(*b),
        OscArg::Str(s) => OscArg::Str(s.clone()),
        OscArg::Other => OscArg::Other,
    }
}

fn clone_message(m: &Message) -> (r: Message)
    ensures
        r@ == m@,
{
    let mut args: Vec<OscArg> = Vec::new();
    let n = m.args.len();
    let mut i: usize = 0;
    while i < n
        invariant
            0 <= i <= n,
            n == m.args@.len(),
            args@.len() == i,
            forall|k: int| 0 <= k < i ==> args@[k]@ == m.args@[k]@,
        decreases n - i,
    {
        let c = clone_arg(&m.args[i]);
        args.push(c);
        i += 1;
    }
    proof {
        assert(args@.map_values(|a: OscArg| a@) =~= m.args@.map_values(|a: OscArg| a@));
    }
    let r = Message { addr: m.addr.clone(), args };
    proof {
        assert(r@ =~= m@);
    }
    r
}

fn flatten_into(p: &Packet, out: &mut Vec<Message>)
    ensures
        message_views(final(out)@) == message_views(old(out)@) + flatten_views(*p),
    decreases *p,
{
    match p {
        Packet::Message(m) => {
            let c = clone_message(m);
            out.push(c);
            proof {
                assert(message_views(out@) =~= message_views(old(out)@) + flatten_views(*p));
            }
        },
        Packet::Bundle(content) => {
            let n = content.len();
            let mut i: usize = 0;
            while i < n
                invariant
                    0 <= i <= n,
                    n == content@.len(),
                    *p == Packet::Bundle(*content),
                    message_views(out@) == message_views(old(out)@) + flatten_bundle_views(
                        content@.take(i as int),
                    ),
                decreases n - i,
            {
                proof {
                    assert(decreases_to!(*p => (*p)->Bundle_0));
                    assert((*p)->Bundle_0 == *content);
                    assert(decreases_to!(*content => content@));
                    assert(decreases_to!(content@ => content@[i as int]));
                    assert(decreases_to!(*p => content@[i as int]));
                }
                flatten_into(&content[i], out);
                proof {
                    lemma_flatten_bundle_push(content@.take(i as int), content@[i as int]);
                    assert(content@.take(i + 1) =~= content@.take(i as int).push(
                        content@[i as int],
                    ));
                    assert(message_views(out@) =~= message_views(old(out)@)
                        + flatten_bundle_views(content@.take(i + 1)));
                }
                i += 1;
            }
            proof {
                assert(content@.take(n as int) =~= content@);
            }
        },
    }
}

/// Recursively expands bundles depth-first, preserving order; a packet that
/// is a single message yields a one-element run.
pub fn extract_osc_messages(p: &Packet) -> (r: Vec<Message>)
    ensures
        message_views(r@) == flatten_views(*p),
{
    let mut out: Vec<Message> = Vec::new();
    proof {
        assert(message_views(Seq::<Message>::empty()) =~= Seq::<MessageV>::empty());
    }
    flatten_into(p, &mut out);
    out
}

// ---------------------------------------------------------------------------
// The trusted boundary to rosc
// ---------------------------------------------------------------------------

/// What `rosc::decoder::decode_udp` yields on a datagram, carried over into
/// the bridge's packet model: the decoded packet, or nothing when the bytes
/// are malformed. It is a function of the bytes alone.
pub uninterp spec fn osc_decoded(b: Seq<u8>) -> Option<Packet>;

/// What `rosc::encoder::encode` yields for a single-message packet with one
/// integer argument. It is a function of the address and the value alone.
pub uninterp spec fn osc_encoded(addr: Seq<char>, value: i32) -> Seq<u8>;

/// Whether `rosc::address::verify_address` accepts an address.
pub uninterp spec fn osc_addr_ok(addr: Seq<char>) -> bool;

/// Whether `rosc::address::Matcher::new` accepts a pattern: its validation
/// and its parse of the pattern both depend on the pattern alone.
pub uninterp spec fn osc_pattern_ok(pattern: Seq<char>) -> bool;

/// Whether an address matches a wildcard pattern under OSC pattern-matching
/// rules, as `rosc::address::Matcher::match_address` decides it.
pub uninterp spec fn addr_matches(pattern: Seq<char>, addr: Seq<char>) -> bool;

#[verifier::external_type_specification]
#[verifier::external_body]
pub struct ExOscPacket(rosc::OscPacket);

#[verifier::external_type_specification]
#[verifier::external_body]
pub struct ExOscMessage(rosc::OscMessage);

#[verifier::external_type_specification]
#[verifier::external_body]
pub struct ExOscType(rosc::OscType);

/// Carries one `rosc::OscType` argument into the bridge's model, by variant;
/// a float is kept as its bit pattern, types outside the model become
/// `Other`. Only converts; called from the decode wrapper's body.
#[verifier::external_body]
fn convert_arg(a: rosc::OscType) -> OscArg {
    match a {
        rosc::OscType::Int(v) => OscArg::Int(v),
        rosc::OscType::Float(v) => OscArg::Float(v.to_bits()),
        rosc::OscType::String(s) => OscArg::Str(s),
        _ => OscArg::Other,
    }
}

/// Carries one `rosc::OscMessage` into the bridge's model, field for field.
#[verifier::external_body]
fn convert_osc_message(m: rosc::OscMessage) -> Message {
    Message { addr: m.addr, args: m.args.into_iter().map(convert_arg).collect() }
}

/// Carries one `rosc::OscPacket` into the bridge's model, variant for
/// variant; a bundle's timetag plays no role in dispatch and is dropped.
#[verifier::external_body]
fn convert_packet(p: rosc::OscPacket) -> Packet {
    match p {
        rosc::OscPacket::Message(m) => Packet::Message(convert_osc_message(m)),
        rosc::OscPacket::Bundle(b) => Packet::Bundle(
            b.content.into_iter().map(convert_packet).collect(),
        ),
    }
}

/// Relies on `rosc::decoder::decode_udp`: decodes one UDP datagram into an
/// OSC packet, or fails on malformed bytes. The result depends on the bytes
/// alone.
#[verifier::external_body]
fn decode_udp_packet(buf: &[u8]) -> (r: Option<Packet>)
    ensures
        r == osc_decoded(buf@),
{
    match rosc::decoder::decode_udp(buf) {
        Ok((_rest, p)) => Some(convert_packet(p)),
        Err(_) => None,
    }
}

/// Decodes one UDP datagram into an OSC packet; malformed bytes are a
/// decode error.
pub fn decode_datagram(buf: &[u8]) -> (r: Result<Packet, crate::error::BridgeError>)
    ensures
        r matches Ok(p) ==> osc_decoded(buf@) == Some(p),
        r matches Err(e) ==> osc_decoded(buf@) is None && e
            == crate::error::BridgeError::DecodeError,
{
    match decode_udp_packet(buf) {
        Some(p) => Ok(p),
        None => Err(crate::error::BridgeError::DecodeError),
    }
}

/// Relies on `rosc::encoder::encode`: encodes a single-message packet with
/// one integer argument. Its writer into a `Vec` cannot fail, so the bytes
/// are always produced; they depend on the address and value alone.
#[verifier::external_body]
fn encode_single(m: &OutMessage) -> (r: Vec<u8>)
    ensures
        r@ == osc_encoded(m.addr@, m.value),
{
    let packet = rosc::OscPacket::Message(rosc::OscMessage {
        addr: m.addr.clone(),
        args: vec![rosc::OscType::Int(m.value)],
    });
    rosc::encoder::encode(&packet).unwrap_or_default()
}

/// Encodes one outbound console message to the bytes to send.
pub fn encode_out_message(m: &OutMessage) -> (r: Vec<u8>)
    ensures
        r@ == osc_encoded(m.addr@, m.value),
{
    encode_single(m)
}

/// Relies on `rosc::address::OscAddress::new`, which accepts an address
/// exactly when `rosc::address::verify_address` does.
#[verifier::external_body]
pub fn osc_address_valid(addr: &str) -> (r: bool)
    ensures
        r == osc_addr_ok(addr@),
{
    rosc::address::OscAddress::new(addr.to_string()).is_ok()
}

/// Relies on `rosc::address::Matcher::new` and `Matcher::match_address`:
/// `Matcher::new` fails exactly when it rejects the pattern, and
/// `OscAddress::new` fails exactly when `verify_address` rejects the
/// address; on two accepted inputs the match result is a function of the
/// pattern and the address alone.
#[verifier::external_body]
pub fn match_osc_pattern(pattern: &str, addr: &str) -> (r: Option<bool>)
    ensures
        r matches Some(b) ==> b == addr_matches(pattern@, addr@),
        (r is Some) == (osc_pattern_ok(pattern@) && osc_addr_ok(addr@)),
{
    let matcher = match rosc::address::Matcher::new(pattern) {
        Ok(m) => m,
        Err(_) => {
            return None;
        },
    };
    let address = match rosc::address::OscAddress::new(addr.to_string()) {
        Ok(a) => a,
        Err(_) => {
            return None;
        },
    };
    Some(matcher.match_address(&address))
}

} // verus!
