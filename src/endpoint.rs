//! Choice of one input and one output endpoint from a device's descriptors.
use vstd::prelude::*;

verus! {

/// Direction of an endpoint, seen from the host.
#[derive(Clone, Copy, PartialEq, Eq, Debug, Structural)]
pub enum Direction {
    In,
    Out,
}

/// Transfer type that an endpoint declares.
#[derive(Clone, Copy, PartialEq, Eq, Debug, Structural)]
pub enum TransferKind {
    Control,
    Isochronous,
    Bulk,
    Interrupt,
}

/// One resolved endpoint: where it sits in the descriptor tree and its address.
#[derive(Clone, Copy, PartialEq, Eq, Debug, Structural)]
pub struct Endpoint {
    pub config: u8,
    pub iface: u8,
    pub setting: u8,
    pub address: u8,
}

/// One leaf of a descriptor tree (configuration, interface, alternate
/// setting, endpoint), with the numbers of its ancestors.
#[derive(Clone, Copy, PartialEq, Eq, Debug, Structural)]
pub struct EndpointEntry {
    pub config: u8,
    pub iface: u8,
    pub setting: u8,
    pub address: u8,
    pub direction: Direction,
    pub kind: TransferKind,
}

/// The endpoint that an entry describes.
pub open spec fn endpoint_of(e: EndpointEntry) -> Endpoint {
    Endpoint { config: e.config, iface: e.iface, setting: e.setting, address: e.address }
}

/// Whether an entry has the given transfer kind and direction.
pub open spec fn entry_matches(e: EndpointEntry, kind: TransferKind, dir: Direction) -> bool {
    e.kind == kind && e.direction == dir
}

/// An endpoint descriptor: its address, direction and transfer type.
#[derive(Clone, Copy, PartialEq, Eq, Debug, Structural)]
pub struct EndpointDesc {
    pub address: u8,
    pub direction: Direction,
    pub kind: TransferKind,
}

/// An alternate setting of an interface, with its endpoints.
#[derive(Debug)]
pub struct AltSettingDesc {
    pub interface_number: u8,
    pub setting_number: u8,
    pub endpoints: Vec<EndpointDesc>,
}

/// An interface, with its alternate settings.
#[derive(Debug)]
pub struct InterfaceDesc {
    pub settings: Vec<AltSettingDesc>,
}

/// A configuration, with its interfaces.
#[derive(Debug)]
pub struct ConfigDesc {
    pub number: u8,
    pub interfaces: Vec<InterfaceDesc>,
}

/// The leaf entry of endpoint `e` of setting `s` in configuration `config`.
pub open spec fn entry_of(config: u8, s: AltSettingDesc, e: EndpointDesc) -> EndpointEntry {
    EndpointEntry {
        config,
        iface: s.interface_number,
        setting: s.setting_number,
        address: e.address,
        direction: e.direction,
        kind: e.kind,
    }
}

/// The leaf entries of one alternate setting, in order.
pub open spec fn setting_entries(config: u8, s: AltSettingDesc) -> Seq<EndpointEntry> {
    s.endpoints@.map_values(|e: EndpointDesc| entry_of(config, s, e))
}

/// The leaf entries of one interface, setting after setting.
pub open spec fn interface_entries(config: u8, i: InterfaceDesc) -> Seq<EndpointEntry> {
    i.settings@.map_values(|s: AltSettingDesc| setting_entries(config, s)).flatten()
}

/// The leaf entries of one configuration, interface after interface.
pub open spec fn config_entries(c: ConfigDesc) -> Seq<EndpointEntry> {
    c.interfaces@.map_values(|i: InterfaceDesc| interface_entries(c.number, i)).flatten()
}

/// The leaf entries of a device, configuration after configuration; a
/// configuration whose descriptor could not be read (`None`) has none.
pub open spec fn tree_entries(configs: Seq<Option<ConfigDesc>>) -> Seq<EndpointEntry> {
    configs.map_values(
        |c: Option<ConfigDesc>|
            match c {
                Some(c) => config_entries(c),
                None => Seq::empty(),
            },
    ).flatten()
}

proof fn lemma_flatten_take_step<A>(s: Seq<Seq<A>>, k: int)
    requires
        0 <= k < s.len(),
    ensures
        s.take(k + 1).flatten() == s.take(k).flatten() + s[k],
{
    s.take(k + 1).lemma_flatten_and_flatten_alt_are_equivalent();
    s.take(k).lemma_flatten_and_flatten_alt_are_equivalent();
    assert(s.take(k + 1).drop_last() =~= s.take(k));
}

fn append_setting_entries(out: &mut Vec<EndpointEntry>, config: u8, s: &AltSettingDesc)
    ensures
        final(out)@ == old(out)@ + setting_entries(config, *s),
{
    let ghost all = setting_entries(config, *s);
    let mut k: usize = 0;
    while k < s.endpoints.len()
        invariant
            k <= s.endpoints@.len(),
            all == setting_entries(config, *s),
            out@ == old(out)@ + all.take(k as int),
        decreases s.endpoints@.len() - k,
    {
        let e = s.endpoints[k];
        out.push(
            EndpointEntry {
                config,
                iface: s.interface_number,
                setting: s.setting_number,
                address: e.address,
                direction: e.direction,
                kind: e.kind,
            },
        );
        assert(all.take(k + 1) =~= all.take(k as int).push(all[k as int]));
        k = k + 1;
    }
    assert(all.take(k as int) =~= all);
}

fn append_interface_entries(out: &mut Vec<EndpointEntry>, config: u8, i: &InterfaceDesc)
    ensures
        final(out)@ == old(out)@ + interface_entries(config, *i),
{
    let ghost parts = i.settings@.map_values(|s: AltSettingDesc| setting_entries(config, s));
    let mut k: usize = 0;
    while k < i.settings.len()
        invariant
            k <= i.settings@.len(),
            parts == i.settings@.map_values(|s: AltSettingDesc| setting_entries(config, s)),
            out@ == old(out)@ + parts.take(k as int).flatten(),
        decreases i.settings@.len() - k,
    {
        let ghost before = out@;
        append_setting_entries(out, config, &i.settings[k]);
        proof {
            lemma_flatten_take_step(parts, k as int);
            assert(before + parts[k as int] =~= old(out)@ + parts.take(k + 1).flatten());
        }
        k = k + 1;
    }
    assert(parts.take(k as int) =~= parts);
}

fn append_config_entries(out: &mut Vec<EndpointEntry>, c: &ConfigDesc)
    ensures
        final(out)@ == old(out)@ + config_entries(*c),
{
    let ghost parts = c.interfaces@.map_values(|i: InterfaceDesc| interface_entries(c.number, i));
    let mut k: usize = 0;
    while k < c.interfaces.len()
        invariant
            k <= c.interfaces@.len(),
            parts == c.interfaces@.map_values(|i: InterfaceDesc| interface_entries(c.number, i)),
            out@ == old(out)@ + parts.take(k as int).flatten(),
        decreases c.interfaces@.len() - k,
    {
        let ghost before = out@;
        append_interface_entries(out, c.number, &c.interfaces[k]);
        proof {
            lemma_flatten_take_step(parts, k as int);
            assert(before + parts[k as int] =~= old(out)@ + parts.take(k + 1).flatten());
        }
        k = k + 1;
    }
    assert(parts.take(k as int) =~= parts);
}

/// Lists the leaves of a descriptor tree in enumeration order (configuration,
/// interface, alternate setting, endpoint), each with its ancestry.
/// Configurations whose descriptor could not be read are skipped.
pub fn endpoint_entries(configs: &Vec<Option<ConfigDesc>>) -> (r: Vec<EndpointEntry>)
    ensures
        r@ == tree_entries(configs@),
{
    let ghost parts = configs@.map_values(
        |c: Option<ConfigDesc>|
            match c {
                Some(c) => config_entries(c),
                None => Seq::empty(),
            },
    );
    let mut out: Vec<EndpointEntry> = Vec::new();
    let mut k: usize = 0;
    while k < configs.len()
        invariant
            k <= configs@.len(),
            parts == configs@.map_values(
                |c: Option<ConfigDesc>|
                    match c {
                        Some(c) => config_entries(c),
                        None => Seq::empty(),
                    },
            ),
            out@ == parts.take(k as int).flatten(),
        decreases configs@.len() - k,
    {
        let ghost before = out@;
        if let Some(c) = &configs[k] {
            append_config_entries(&mut out, c);
        }
        proof {
            lemma_flatten_take_step(parts, k as int);
            assert(before + parts[k as int] =~= parts.take(k + 1).flatten());
        }
        k = k + 1;
    }
    assert(parts.take(k as int) =~= parts);
    out
}

/// The endpoint of the last entry of `s` with the given kind and direction.
pub open spec fn last_match(s: Seq<EndpointEntry>, kind: TransferKind, dir: Direction) -> Option<Endpoint>
    decreases s.len(),
{
    if s.len() == 0 {
        None
    } else if entry_matches(s.last(), kind, dir) {
        Some(endpoint_of(s.last()))
    } else {
        last_match(s.drop_last(), kind, dir)
    }
}

/// The pair that the resolver gives for `s`: the last input and the last
/// output endpoint of the kind, when both exist.
pub open spec fn resolved_pair(s: Seq<EndpointEntry>, kind: TransferKind) -> Option<(Endpoint, Endpoint)> {
    match (last_match(s, kind, Direction::In), last_match(s, kind, Direction::Out)) {
        (Some(i), Some(o)) => Some((i, o)),
        _ => None,
    }
}

impl EndpointEntry {
    /// The endpoint that this entry describes.
    pub fn endpoint(&self) -> (r: Endpoint)
        ensures
            r == endpoint_of(*self),
    {
        Endpoint { config: self.config, iface: self.iface, setting: self.setting, address: self.address }
    }
}

/// Picks an (input, output) endpoint pair of the given transfer kind from the
/// leaves of a descriptor tree, in enumeration order. For each direction the
/// last matching entry wins; without both directions there is no pair.
pub fn get_end_points(entries: &Vec<EndpointEntry>, kind: TransferKind) -> (r: Option<(Endpoint, Endpoint)>)
    ensures
        r == resolved_pair(entries@, kind),
{
    let mut endpoint_in: Option<Endpoint> = None;
    let mut endpoint_out: Option<Endpoint> = None;
    let mut i: usize = 0;
    while i < entries.len()
        invariant
            i <= entries@.len(),
            endpoint_in == last_match(entries@.take(i as int), kind, Direction::In),
            endpoint_out == last_match(entries@.take(i as int), kind, Direction::Out),
        decreases entries@.len() - i,
    {
        let e = entries[i];
        assert(entries@.take(i + 1).drop_last() =~= entries@.take(i as int));
        if e.kind == kind {
            if e.direction == Direction::In {
                endpoint_in = Some(e.endpoint());
            } else {
                endpoint_out = Some(e.endpoint());
            }
        }
        i = i + 1;
    }
    assert(entries@.take(i as int) =~= entries@);
    match (endpoint_in, endpoint_out) {
        (Some(a), Some(b)) => Some((a, b)),
        _ => None,
    }
}

/// The resolver's choice for one direction is the last matching entry: if
/// entry `i` matches and no later entry does, the choice is entry `i`; if no
/// entry matches, there is no choice.
pub proof fn lemma_last_match_wins(s: Seq<EndpointEntry>, kind: TransferKind, dir: Direction, i: int)
    requires
        0 <= i < s.len(),
        entry_matches(s[i], kind, dir),
        forall|j: int| i < j < s.len() ==> !entry_matches(#[trigger] s[j], kind, dir),
    ensures
        last_match(s, kind, dir) == Some(endpoint_of(s[i])),
    decreases s.len(),
{
    if i < s.len() - 1 {
        assert(!entry_matches(s[s.len() - 1], kind, dir));
        assert(s.drop_last()[i] == s[i]);
        assert forall|j: int| i < j < s.drop_last().len() implies !entry_matches(
            #[trigger] s.drop_last()[j],
            kind,
            dir,
        ) by {
            assert(s.drop_last()[j] == s[j]);
        }
        lemma_last_match_wins(s.drop_last(), kind, dir, i);
    }
}

/// Where no entry has the kind and direction, the resolver finds nothing for
/// that direction, so no pair.
pub proof fn lemma_no_match(s: Seq<EndpointEntry>, kind: TransferKind, dir: Direction)
    requires
        forall|j: int| 0 <= j < s.len() ==> !entry_matches(#[trigger] s[j], kind, dir),
    ensures
        last_match(s, kind, dir) == None::<Endpoint>,
        resolved_pair(s, kind) == None::<(Endpoint, Endpoint)>,
    decreases s.len(),
{
    if s.len() > 0 {
        assert(!entry_matches(s[s.len() - 1], kind, dir));
        assert forall|j: int| 0 <= j < s.drop_last().len() implies !entry_matches(
            #[trigger] s.drop_last()[j],
            kind,
            dir,
        ) by {
            assert(s.drop_last()[j] == s[j]);
        }
        lemma_no_match(s.drop_last(), kind, dir);
    }
}

/// A descriptor tree whose entries of a kind are one input at `i` and one
/// output at `o` resolves to exactly that pair; with several of a direction,
/// the last one of each is taken.
pub proof fn lemma_resolves_to_last_pair(s: Seq<EndpointEntry>, kind: TransferKind, i: int, o: int)
    requires
        0 <= i < s.len(),
        0 <= o < s.len(),
        entry_matches(s[i], kind, Direction::In),
        entry_matches(s[o], kind, Direction::Out),
        forall|j: int| i < j < s.len() ==> !entry_matches(#[trigger] s[j], kind, Direction::In),
        forall|j: int| o < j < s.len() ==> !entry_matches(#[trigger] s[j], kind, Direction::Out),
    ensures
        resolved_pair(s, kind) == Some((endpoint_of(s[i]), endpoint_of(s[o]))),
{
    lemma_last_match_wins(s, kind, Direction::In, i);
    lemma_last_match_wins(s, kind, Direction::Out, o);
}

} // verus!
