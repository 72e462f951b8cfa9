//! Published ports, read from the runtime's port bindings.
use vstd::prelude::*;
use crate::decimal::{all_digits, is_digit, lemma_numeral_grows, numeral_value};
use crate::model::{port_views, PortMapping, PortMappingView};
use crate::text::{chars_before, find_char, slice_text, to_chars, views};

verus! {

/// The port on which a game server listens inside its container.
pub const GAME_SERVER_PORT: u16 = 25565;

/// The port on which a game server's remote console listens inside its
/// container.
pub const CONSOLE_PORT: u16 = 25575;

/// The port that a text names: a non-empty run of decimal digits whose value
/// is a port number other than zero.
pub open spec fn port_named(s: Seq<char>) -> Option<u16> {
    if s.len() > 0 && all_digits(s) && 0 < numeral_value(s) <= 65535 {
        Some(numeral_value(s) as u16)
    } else {
        None
    }
}

fn parse_port_chars(v: &Vec<char>, from: usize, to: usize) -> (r: Option<u16>)
    requires
        from <= to <= v.len(),
    ensures
        r == port_named(v@.subrange(from as int, to as int)),
{
    let ghost s = v@.subrange(from as int, to as int);
    if from == to {
        return None;
    }
    let mut acc: u32 = 0;
    let mut i: usize = from;
    while i < to
        invariant
            from <= i <= to <= v.len(),
            s == v@.subrange(from as int, to as int),
            all_digits(s.take(i - from)),
            acc == numeral_value(s.take(i - from)),
            acc <= 65535,
        decreases to - i,
    {
        let c = v[i];
        assert(s.take(i - from + 1).drop_last() =~= s.take(i - from));
        if !('0' <= c && c <= '9') {
            assert(!is_digit(s[i - from]));
            return None;
        }
        let d: u32 = c as u32 - '0' as u32;
        acc = acc * 10 + d;
        if acc > 65535 {
            proof {
                lemma_numeral_grows(s, i - from + 1);
            }
            return None;
        }
        i += 1;
    }
    assert(s.take(to - from) =~= s);
    if acc == 0 {
        None
    } else {
        Some(acc as u16)
    }
}

/// The port that `text` names, if it names one.
pub fn parse_port(text: &str) -> (r: Option<u16>)
    ensures
        r == port_named(text@),
{
    let v = to_chars(text);
    assert(v@.subrange(0, v.len() as int) =~= v@);
    parse_port_chars(&v, 0, v.len())
}

/// One port binding of the runtime's configuration: the container side as
/// `<port>/<protocol>`, and the host port of each place it is bound to, where
/// one is given.
#[derive(Debug)]
pub struct PortBinding {
    pub container_spec: String,
    pub host_ports: Vec<Option<String>>,
}

pub struct PortBindingView {
    pub container_spec: Seq<char>,
    pub host_ports: Seq<Option<Seq<char>>>,
}

/// The host ports of a binding, as character sequences.
pub open spec fn host_views(v: Seq<Option<String>>) -> Seq<Option<Seq<char>>> {
    Seq::new(
        v.len(),
        |i: int|
            match v[i] {
                Some(s) => Some(s@),
                None => None,
            },
    )
}

impl View for PortBinding {
    type V = PortBindingView;

    open spec fn view(&self) -> PortBindingView {
        PortBindingView {
            container_spec: self.container_spec@,
            host_ports: host_views(self.host_ports@),
        }
    }
}

/// The views of a sequence of bindings.
pub open spec fn binding_views(v: Seq<PortBinding>) -> Seq<PortBindingView> {
    Seq::new(v.len(), |i: int| v[i]@)
}

/// The container port of a `<port>/<protocol>` text.
pub open spec fn spec_port(spec: Seq<char>) -> Option<u16> {
    port_named(spec.take(chars_before(spec, '/') as int))
}

/// The protocol of a `<port>/<protocol>` text: what follows the first `/`,
/// nothing where there is none.
pub open spec fn spec_protocol(spec: Seq<char>) -> Seq<char> {
    let k = chars_before(spec, '/');
    if k >= spec.len() {
        Seq::empty()
    } else {
        spec.skip(k as int + 1)
    }
}

/// The mapping for one host port of a binding; none where the host port is
/// missing, is no number or is zero.
pub open spec fn host_mapping(
    host: Option<Seq<char>>,
    container_port: u16,
    protocol: Seq<char>,
) -> Option<PortMappingView> {
    if host is Some && port_named(host->0) is Some {
        Some(
            PortMappingView {
                host_port: port_named(host->0)->0,
                container_port: container_port,
                protocol: protocol,
            },
        )
    } else {
        None
    }
}

/// The mappings for the host ports of a binding, in order.
pub open spec fn host_mappings(
    hosts: Seq<Option<Seq<char>>>,
    container_port: u16,
    protocol: Seq<char>,
) -> Seq<PortMappingView>
    decreases hosts.len(),
{
    if hosts.len() == 0 {
        Seq::empty()
    } else {
        let rest = host_mappings(hosts.drop_last(), container_port, protocol);
        match host_mapping(hosts.last(), container_port, protocol) {
            Some(m) => rest.push(m),
            None => rest,
        }
    }
}

/// The mappings of one binding; none where its container port is no number or
/// is zero.
pub open spec fn binding_mappings(b: PortBindingView) -> Seq<PortMappingView> {
    match spec_port(b.container_spec) {
        Some(port) => host_mappings(b.host_ports, port, spec_protocol(b.container_spec)),
        None => Seq::empty(),
    }
}

/// The mappings of all bindings, binding by binding.
pub open spec fn all_mappings(bs: Seq<PortBindingView>) -> Seq<PortMappingView>
    decreases bs.len(),
{
    if bs.len() == 0 {
        Seq::empty()
    } else {
        all_mappings(bs.drop_last()) + binding_mappings(bs.last())
    }
}

/// Appends the mappings of one binding to `out`.
fn push_binding(out: &mut Vec<PortMapping>, b: &PortBinding)
    ensures
        port_views(final(out)@) == port_views(old(out)@) + binding_mappings(b@),
{
    let ghost start = port_views(out@);
    let spec = to_chars(b.container_spec.as_str());
    let n = spec.len();
    assert(spec@.subrange(0, n as int) =~= spec@);
    let k = find_char(&spec, 0, n, '/');
    let port = match parse_port_chars(&spec, 0, k) {
        Some(p) => p,
        None => {
            return ;
        },
    };
    let from: usize = if k < n {
        k + 1
    } else {
        n
    };
    let protocol = slice_text(&spec, from, n);
    let mut i: usize = 0;
    while i < b.host_ports.len()
        invariant
            i <= b.host_ports.len(),
            protocol@ == spec_protocol(b.container_spec@),
            port_views(out@) == start + host_mappings(
                host_views(b.host_ports@).take(i as int),
                port,
                protocol@,
            ),
        decreases b.host_ports.len() - i,
    {
        let ghost before = port_views(out@);
        let ghost hosts = host_views(b.host_ports@).take(i + 1);
        assert(hosts.drop_last() =~= host_views(b.host_ports@).take(i as int));
        match &b.host_ports[i] {
            Some(host) => {
                match parse_port(host.as_str()) {
                    Some(host_port) => {
                        let m = PortMapping {
                            host_port,
                            container_port: port,
                            protocol: protocol.clone(),
                        };
                        out.push(m);
                        assert(port_views(out@) =~= before.push(m@));
                        assert(port_views(out@) =~= start + host_mappings(
                            hosts,
                            port,
                            protocol@,
                        ));
                    },
                    None => {},
                }
            },
            None => {},
        }
        i += 1;
    }
    assert(host_views(b.host_ports@).take(i as int) =~= host_views(b.host_ports@));
}

/// The published ports of a container, read from its bindings: every host
/// port bound to a container port, leaving out what is missing or zero.
pub fn extract_ports(bindings: &Vec<PortBinding>) -> (r: Vec<PortMapping>)
    ensures
        port_views(r@) == all_mappings(binding_views(bindings@)),
{
    let mut out: Vec<PortMapping> = Vec::new();
    let mut i: usize = 0;
    while i < bindings.len()
        invariant
            i <= bindings.len(),
            port_views(out@) == all_mappings(binding_views(bindings@).take(i as int)),
        decreases bindings.len() - i,
    {
        let ghost l = binding_views(bindings@).take(i + 1);
        assert(l.drop_last() =~= binding_views(bindings@).take(i as int));
        push_binding(&mut out, &bindings[i]);
        i += 1;
    }
    assert(binding_views(bindings@).take(i as int) =~= binding_views(bindings@));
    out
}

/// Whether some mapping leads to the game-server port.
pub open spec fn targets_game_port(ports: Seq<PortMappingView>) -> bool {
    exists|i: int| 0 <= i < ports.len() && (#[trigger] ports[i]).container_port == GAME_SERVER_PORT
}

/// Whether the container publishes the game-server port.
pub fn is_game_server(ports: &Vec<PortMapping>) -> (r: bool)
    ensures
        r == targets_game_port(port_views(ports@)),
{
    let mut i: usize = 0;
    while i < ports.len()
        invariant
            i <= ports.len(),
            forall|j: int|
                0 <= j < i ==> (#[trigger] port_views(ports@)[j]).container_port
                    != GAME_SERVER_PORT,
        decreases ports.len() - i,
    {
        if ports[i].container_port == GAME_SERVER_PORT {
            assert(port_views(ports@)[i as int].container_port == GAME_SERVER_PORT);
            return true;
        }
        i += 1;
    }
    false
}

} // verus!
