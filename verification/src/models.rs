//! What the modem reports, and the codecs of its dialect: flags and protocols
//! sent as numbers, lease times sent as `days:hours:mins:secs`.

use crate::error::{DecodeError, DecodeErrorView, LeaseField};
use crate::text::{
    chars_of, decimal, find_sep, lemma_next_sep, parse_number, parse_unsigned, push_decimal,
    same_but_case, same_text_ignoring_case, split, split_from,
};
use vstd::prelude::*;
use vstd::slice::slice_subrange;
use vstd::string::*;

verus! {

/// The devices that the modem knows on its local network.
#[derive(Debug)]
pub struct LanUserTable {
    /// The devices on a cable.
    pub ethernet: Vec<ClientInfo>,
    /// The wireless devices.
    pub wifi: Vec<ClientInfo>,
    /// How many devices the modem counts.
    pub total_clients: u32,
    /// The provider that the modem was made for.
    pub customer: String,
}

/// One device on the local network.
#[derive(Debug)]
pub struct ClientInfo {
    /// The name of the interface that the device is on.
    pub interface: String,
    /// The device's IPv4 address and prefix length, as the modem writes them.
    pub ipv4_addr: String,
    pub index: u32,
    pub interface_id: u32,
    pub hostname: String,
    /// The device's hardware address.
    pub mac: String,
    pub method: u32,
    /// How long the device's lease still runs, in seconds.
    pub lease_time: u64,
    pub speed: u32,
}

/// An IPv4 address, by its four octets.
#[derive(Clone, Copy, Debug, PartialEq, Eq, Structural)]
pub struct Ipv4Addr {
    pub a: u8,
    pub b: u8,
    pub c: u8,
    pub d: u8,
}

/// The port forwarding table of the modem.
#[derive(Debug)]
pub struct PortForwards {
    /// The modem's own address on the local network.
    pub lan_ip: Ipv4Addr,
    pub subnet_mask: Ipv4Addr,
    /// The forwards, in the modem's order.
    pub entries: Vec<PortForwardEntry>,
}

/// One port forward: a range of outside ports handed on to a range of ports
/// of one local host.
#[derive(Clone, Copy, Debug)]
pub struct PortForwardEntry {
    /// The number that the modem gave the forward; 0 in one that is yet to be
    /// added.
    pub id: u32,
    pub local_ip: Ipv4Addr,
    pub start_port: u16,
    pub end_port: u16,
    pub start_port_in: u16,
    pub end_port_in: u16,
    pub protocol: PortForwardProtocol,
    pub enable: bool,
}

/// The transport protocols that a port forward can apply to.
#[derive(Clone, Copy, Debug, PartialEq, Eq, Structural)]
pub enum PortForwardProtocol {
    Tcp,
    Udp,
    Both,
}

/// The text of an address: its octets in decimal, with dots between them.
pub open spec fn dotted(ip: Ipv4Addr) -> Seq<char> {
    decimal(ip.a as nat) + seq!['.'] + decimal(ip.b as nat) + seq!['.'] + decimal(ip.c as nat)
        + seq!['.'] + decimal(ip.d as nat)
}

impl Ipv4Addr {
    /// The address `a.b.c.d`.
    pub fn new(a: u8, b: u8, c: u8, d: u8) -> (ip: Ipv4Addr)
        ensures
            ip == (Ipv4Addr { a, b, c, d }),
    {
        Ipv4Addr { a, b, c, d }
    }

    /// The four octets, first to last.
    pub fn octets(&self) -> (o: [u8; 4])
        ensures
            o@ == seq![self.a, self.b, self.c, self.d],
    {
        let o = [self.a, self.b, self.c, self.d];
        assert(o@ =~= seq![self.a, self.b, self.c, self.d]);
        o
    }

    /// The address in dotted decimal.
    pub fn to_string(&self) -> (s: String)
        ensures
            s@ == dotted(*self),
    {
        proof {
            reveal_strlit(".");
        }
        assert("."@ =~= seq!['.']);
        let mut s = String::new();
        push_decimal(&mut s, self.a as u64);
        s.append(".");
        push_decimal(&mut s, self.b as u64);
        s.append(".");
        push_decimal(&mut s, self.c as u64);
        s.append(".");
        push_decimal(&mut s, self.d as u64);
        assert(s@ =~= dotted(*self));
        s
    }
}

/// The number that the modem uses for a protocol.
pub open spec fn protocol_id(protocol: PortForwardProtocol) -> u8 {
    match protocol {
        PortForwardProtocol::Tcp => 1,
        PortForwardProtocol::Udp => 2,
        PortForwardProtocol::Both => 3,
    }
}

/// The protocol that a number of the modem stands for, if any.
pub open spec fn protocol_of(id: u8) -> Option<PortForwardProtocol> {
    if id == 1 {
        Some(PortForwardProtocol::Tcp)
    } else if id == 2 {
        Some(PortForwardProtocol::Udp)
    } else if id == 3 {
        Some(PortForwardProtocol::Both)
    } else {
        None
    }
}

/// The name of a protocol.
pub open spec fn protocol_name(protocol: PortForwardProtocol) -> Seq<char> {
    match protocol {
        PortForwardProtocol::Tcp => "tcp"@,
        PortForwardProtocol::Udp => "udp"@,
        PortForwardProtocol::Both => "both"@,
    }
}

/// The protocol that goes by `name`, in whatever case it is written.
pub open spec fn protocol_named(name: Seq<char>) -> Option<PortForwardProtocol> {
    if same_but_case(name, "tcp"@) {
        Some(PortForwardProtocol::Tcp)
    } else if same_but_case(name, "udp"@) {
        Some(PortForwardProtocol::Udp)
    } else if same_but_case(name, "both"@) {
        Some(PortForwardProtocol::Both)
    } else {
        None
    }
}

impl PortForwardProtocol {
    /// The protocol that goes by `name`: `tcp`, `udp` or `both`, in whatever
    /// case.
    pub fn new(name: &str) -> (protocol: Option<PortForwardProtocol>)
        ensures
            protocol == protocol_named(name@),
    {
        if same_text_ignoring_case(name, "tcp") {
            Some(PortForwardProtocol::Tcp)
        } else if same_text_ignoring_case(name, "udp") {
            Some(PortForwardProtocol::Udp)
        } else if same_text_ignoring_case(name, "both") {
            Some(PortForwardProtocol::Both)
        } else {
            None
        }
    }

    /// The name of the protocol, as `new` takes it.
    pub fn name(&self) -> (name: &'static str)
        ensures
            name@ == protocol_name(*self),
    {
        match self {
            PortForwardProtocol::Tcp => "tcp",
            PortForwardProtocol::Udp => "udp",
            PortForwardProtocol::Both => "both",
        }
    }

    /// The number that the modem uses for the protocol.
    pub fn id(&self) -> (id: u8)
        ensures
            id == protocol_id(*self),
    {
        match self {
            PortForwardProtocol::Tcp => 1,
            PortForwardProtocol::Udp => 2,
            PortForwardProtocol::Both => 3,
        }
    }

    /// The protocol's number as the modem's forms take it.
    pub fn id_str(&self) -> (s: &'static str)
        ensures
            s@ == decimal(protocol_id(*self) as nat),
    {
        proof {
            reveal_strlit("1");
            reveal_strlit("2");
            reveal_strlit("3");
        }
        let s = match self {
            PortForwardProtocol::Tcp => "1",
            PortForwardProtocol::Udp => "2",
            PortForwardProtocol::Both => "3",
        };
        assert(s@ =~= decimal(protocol_id(*self) as nat));
        s
    }

    /// Decodes the number that the modem uses for a protocol: 1, 2 and 3 are
    /// protocols, every other number is refused and handed back.
    pub fn from_id(id: u8) -> (r: Result<PortForwardProtocol, DecodeError>)
        ensures
            match protocol_of(id) {
                Some(protocol) => r == Ok::<PortForwardProtocol, DecodeError>(protocol),
                None => r == Err::<PortForwardProtocol, DecodeError>(
                    DecodeError::InvalidProtocol(id),
                ),
            },
    {
        if id == 1 {
            Ok(PortForwardProtocol::Tcp)
        } else if id == 2 {
            Ok(PortForwardProtocol::Udp)
        } else if id == 3 {
            Ok(PortForwardProtocol::Both)
        } else {
            Err(DecodeError::InvalidProtocol(id))
        }
    }
}

/// Every protocol decodes from its own number, and a number that decodes is
/// the number of what it decodes to.
pub proof fn lemma_protocol_round_trip(protocol: PortForwardProtocol, id: u8)
    ensures
        protocol_of(protocol_id(protocol)) == Some(protocol),
        protocol_of(id) == Some(protocol) ==> protocol_id(protocol) == id,
        protocol_of(id) is Some <==> 1 <= id <= 3,
{
}

/// Each protocol goes by its own name, and by that of no other.
pub proof fn lemma_protocol_names(protocol: PortForwardProtocol)
    ensures
        protocol_named(protocol_name(protocol)) == Some(protocol),
{
    reveal_strlit("tcp");
    reveal_strlit("udp");
    reveal_strlit("both");
    assert("tcp"@[0] == 't' && "udp"@[0] == 'u');
}

/// Decodes a flag that the modem sends as a number: 0 is false, 1 is true,
/// every other number is refused and handed back.
pub fn bool_from_int(value: u8) -> (r: Result<bool, DecodeError>)
    ensures
        value == 0 ==> r == Ok::<bool, DecodeError>(false),
        value == 1 ==> r == Ok::<bool, DecodeError>(true),
        value > 1 ==> r == Err::<bool, DecodeError>(DecodeError::InvalidBool(value)),
{
    if value == 0 {
        Ok(false)
    } else if value == 1 {
        Ok(true)
    } else {
        Err(DecodeError::InvalidBool(value))
    }
}

/// The part of a lease time that stands at index `k`.
pub open spec fn lease_field(k: int) -> LeaseField {
    if k == 0 {
        LeaseField::Days
    } else if k == 1 {
        LeaseField::Hours
    } else if k == 2 {
        LeaseField::Mins
    } else {
        LeaseField::Secs
    }
}

/// The number at index `k` among the parts of a lease time: it must be there,
/// and must denote a number that fits in 32 bits.
pub open spec fn lease_part(parts: Seq<Seq<char>>, k: int) -> Result<nat, DecodeErrorView> {
    if k >= parts.len() {
        Err(DecodeErrorView::MissingLeaseField(lease_field(k)))
    } else {
        match parse_unsigned(parts[k], u32::MAX as nat) {
            Some(n) => Ok(n),
            None => Err(DecodeErrorView::InvalidLeaseField(lease_field(k), parts[k])),
        }
    }
}

/// The seconds that a lease time `days:hours:mins:secs` amounts to. The first
/// part that is missing or is no number decides the error; what follows the
/// fourth part is not looked at.
pub open spec fn lease_seconds(raw: Seq<char>) -> Result<nat, DecodeErrorView> {
    let parts = split(raw, ':');
    match lease_part(parts, 0) {
        Err(e) => Err(e),
        Ok(days) => match lease_part(parts, 1) {
            Err(e) => Err(e),
            Ok(hours) => match lease_part(parts, 2) {
                Err(e) => Err(e),
                Ok(mins) => match lease_part(parts, 3) {
                    Err(e) => Err(e),
                    Ok(secs) => Ok(days * 86400 + hours * 3600 + mins * 60 + secs),
                },
            },
        },
    }
}

/// A lease time decodes if and only if it has four parts and each of the
/// first four is a number that fits in 32 bits. No part is taken for zero:
/// one that is missing or is no number is an error, and the first such part
/// is the one that the error names. What decodes fits in 64 bits.
pub proof fn lemma_lease_time_is_all_or_nothing(raw: Seq<char>)
    ensures
        lease_seconds(raw) is Ok <==> (split(raw, ':').len() >= 4 && forall|k: int|
            0 <= k < 4 ==> parse_unsigned(#[trigger] split(raw, ':')[k], u32::MAX as nat) is Some),
        lease_seconds(raw) matches Ok(secs) ==> secs <= u64::MAX,
        lease_seconds(raw) matches Err(DecodeErrorView::MissingLeaseField(field))
            ==> exists|k: int|
            0 <= k < 4 && field == #[trigger] lease_field(k) && split(raw, ':').len() == k,
        lease_seconds(raw) matches Err(DecodeErrorView::InvalidLeaseField(field, part))
            ==> exists|k: int|
            0 <= k < 4 && k < split(raw, ':').len() && field == lease_field(k) && part
                == #[trigger] split(raw, ':')[k],
{
    let parts = split(raw, ':');
    assert(parts.len() >= 1);
    if lease_seconds(raw) is Ok {
        assert forall|k: int| 0 <= k < 4 implies parse_unsigned(
            #[trigger] parts[k],
            u32::MAX as nat,
        ) is Some by {
            assert(lease_part(parts, k) is Ok);
        }
    }
}

/// Reads the part at index `k` of a lease time, which starts at `start` if
/// the lease time has that many parts, and says where the next part starts.
fn read_lease_part(
    raw: &str,
    chars: &Vec<char>,
    start: Option<usize>,
    field: LeaseField,
    Ghost(k): Ghost<int>,
) -> (r: Result<(u64, Option<usize>), DecodeError>)
    requires
        chars@ == raw@,
        0 <= k,
        field == lease_field(k),
        match start {
            Some(at) => {
                &&& at <= chars.len()
                &&& k <= split(raw@, ':').len()
                &&& split(raw@, ':').skip(k) == split_from(raw@, ':', at as int)
            },
            None => split(raw@, ':').len() <= k,
        },
    ensures
        match r {
            Ok((n, next)) => {
                &&& lease_part(split(raw@, ':'), k) == Ok::<nat, DecodeErrorView>(n as nat)
                &&& n <= u32::MAX
                &&& match next {
                    Some(at) => {
                        &&& at <= chars.len()
                        &&& k + 1 <= split(raw@, ':').len()
                        &&& split(raw@, ':').skip(k + 1) == split_from(raw@, ':', at as int)
                    },
                    None => split(raw@, ':').len() <= k + 1,
                }
            },
            Err(e) => lease_part(split(raw@, ':'), k) == Err::<nat, DecodeErrorView>(e@),
        },
{
    let ghost parts = split(raw@, ':');
    match start {
        None => Err(DecodeError::MissingLeaseField(field)),
        Some(at) => {
            let end: usize = find_sep(chars, ':', at);
            proof {
                lemma_next_sep(raw@, ':', at as int);
                let rest = split_from(raw@, ':', at as int);
                assert(rest[0] == raw@.subrange(at as int, end as int)) by {
                    if at as int >= raw@.len() {
                        assert(raw@.subrange(at as int, end as int) =~= Seq::<char>::empty());
                    }
                }
                assert(rest.len() >= 1);
                assert(parts.skip(k).len() == parts.len() - k);
                assert(parts.skip(k)[0] == parts[k]);
                if end < chars.len() {
                    assert(parts.skip(k + 1) =~= parts.skip(k).skip(1));
                    assert(rest.skip(1) =~= split_from(raw@, ':', end + 1));
                } else {
                    assert(rest.len() == 1);
                    assert(parts.skip(k).len() == parts.len() - k);
                }
            }
            match parse_number(slice_subrange(chars.as_slice(), at, end), u32::MAX) {
                Some(n) => {
                    let next = if end < chars.len() {
                        Some(end + 1)
                    } else {
                        None
                    };
                    Ok((n as u64, next))
                },
                None => {
                    let part = raw.substring_char(at, end);
                    Err(DecodeError::InvalidLeaseField(field, String::from_str(part)))
                },
            }
        },
    }
}

/// Decodes a lease time, which the modem sends as `days:hours:mins:secs`,
/// into seconds.
pub fn deserialize_lease_time(raw: &str) -> (r: Result<u64, DecodeError>)
    ensures
        match r {
            Ok(secs) => lease_seconds(raw@) == Ok::<nat, DecodeErrorView>(secs as nat),
            Err(e) => lease_seconds(raw@) == Err::<nat, DecodeErrorView>(e@),
        },
{
    let chars = chars_of(raw);
    assert(split(raw@, ':').skip(0) =~= split_from(raw@, ':', 0));
    let (days, next) = match read_lease_part(raw, &chars, Some(0), LeaseField::Days, Ghost(0)) {
        Ok(read) => read,
        Err(e) => {
            return Err(e);
        },
    };
    let (hours, next) = match read_lease_part(raw, &chars, next, LeaseField::Hours, Ghost(1)) {
        Ok(read) => read,
        Err(e) => {
            return Err(e);
        },
    };
    let (mins, next) = match read_lease_part(raw, &chars, next, LeaseField::Mins, Ghost(2)) {
        Ok(read) => read,
        Err(e) => {
            return Err(e);
        },
    };
    let (secs, _) = match read_lease_part(raw, &chars, next, LeaseField::Secs, Ghost(3)) {
        Ok(read) => read,
        Err(e) => {
            return Err(e);
        },
    };
    Ok(days * 86400 + hours * 3600 + mins * 60 + secs)
}

} // verus!
