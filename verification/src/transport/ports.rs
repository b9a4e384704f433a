//! Choosing the serial port a lidar is attached to.
//!
//! The enumeration of the host's ports is I/O and happens outside this
//! crate's verified part; what is decided here is which of the enumerated
//! ports to use, and how to spell its name.

use vstd::prelude::*;

verus! {

/// USB VID/PID pairs of the USB-to-UART bridges SLAMTEC ships: Silicon Labs
/// `CP210x` and WCH `CH340`.
pub open spec fn known_bridge(vid: u16, pid: u16) -> bool {
    (vid == 0x10C4 && pid == 0xEA60) || (vid == 0x1A86 && pid == 0x7523)
}

/// On macOS, `/dev/tty.*` rewritten to its non-blocking `/dev/cu.*` sibling;
/// every other name, and every name elsewhere, unchanged.
pub open spec fn callout_name(path: Seq<char>, on_macos: bool) -> Seq<char> {
    if on_macos && "/dev/tty."@.is_prefix_of(path) {
        "/dev/cu."@ + path.skip("/dev/tty."@.len() as int)
    } else {
        path
    }
}

/// A port name that looks like a USB-serial adapter.
pub open spec fn usb_serial_like(name: Seq<char>) -> bool {
    ||| "/dev/cu.usbserial"@.is_prefix_of(name)
    ||| "/dev/cu.SLAB_USBtoUART"@.is_prefix_of(name)
    ||| "/dev/cu.wchusbserial"@.is_prefix_of(name)
    ||| "/dev/ttyUSB"@.is_prefix_of(name)
    ||| "/dev/ttyACM"@.is_prefix_of(name)
}

/// One serial port found on the host: its name, and the USB VID/PID pair when
/// it is a USB port.
#[derive(Debug, Clone)]
pub struct PortCandidate {
    /// The port's device name, e.g. `/dev/ttyUSB0` or `COM3`.
    pub name: String,
    /// `Some((vid, pid))` for a USB port, `None` for any other kind.
    pub usb: Option<(u16, u16)>,
}

/// How ports are ranked: a known bridge chip, then any USB port, then a name
/// that looks like a USB-serial adapter.
pub open spec fn rank_matches(rank: int, p: PortCandidate, on_macos: bool) -> bool {
    if rank == 0 {
        p.usb matches Some(ids) && known_bridge(ids.0, ids.1)
    } else if rank == 1 {
        p.usb is Some
    } else {
        p.usb is None && usb_serial_like(callout_name(p.name@, on_macos))
    }
}

/// The (callout-preferred) name of the first port of `ports` that matches
/// `rank`.
pub open spec fn first_of_rank(ports: Seq<PortCandidate>, rank: int, on_macos: bool) -> Option<
    Seq<char>,
>
    decreases ports.len(),
{
    if ports.len() == 0 {
        None
    } else {
        match first_of_rank(ports.drop_last(), rank, on_macos) {
            Some(n) => Some(n),
            None => if rank_matches(rank, ports.last(), on_macos) {
                Some(callout_name(ports.last().name@, on_macos))
            } else {
                None
            },
        }
    }
}

/// The port a lidar is most likely attached to, by rank then by order.
pub open spec fn selected_port(ports: Seq<PortCandidate>, on_macos: bool) -> Option<Seq<char>> {
    match first_of_rank(ports, 0, on_macos) {
        Some(n) => Some(n),
        None => match first_of_rank(ports, 1, on_macos) {
            Some(n) => Some(n),
            None => first_of_rank(ports, 2, on_macos),
        },
    }
}

/// Whether `s` starts with `prefix`, compared character by character.
fn str_starts_with(s: &str, prefix: &str) -> (b: bool)
    ensures
        b == prefix@.is_prefix_of(s@),
{
    let n = prefix.unicode_len();
    if n > s.unicode_len() {
        return false;
    }
    let mut i: usize = 0;
    while i < n
        invariant
            n == prefix@.len(),
            n <= s@.len(),
            i <= n,
            forall|j: int| 0 <= j < i ==> prefix@[j] == s@[j],
        decreases n - i,
    {
        if prefix.get_char(i) != s.get_char(i) {
            return false;
        }
        i = i + 1;
    }
    assert(s@.take(n as int) =~= prefix@);
    true
}

/// `s` without its leading `prefix`, when it has one.
fn str_strip_prefix<'a>(s: &'a str, prefix: &str) -> (r: Option<&'a str>)
    ensures
        r is Some <==> prefix@.is_prefix_of(s@),
        r matches Some(rest) ==> rest@ == s@.skip(prefix@.len() as int),
{
    if str_starts_with(s, prefix) {
        let rest = s.substring_char(prefix.unicode_len(), s.unicode_len());
        assert(rest@ =~= s@.skip(prefix@.len() as int));
        Some(rest)
    } else {
        None
    }
}

/// On macOS (`on_macos`), rewrites `/dev/tty.*` to its non-blocking
/// `/dev/cu.*` sibling; returns other names, and all names elsewhere,
/// unchanged.
pub fn prefer_callout_device(path: &str, on_macos: bool) -> (name: String)
    ensures
        name@ == callout_name(path@, on_macos),
{
    if on_macos {
        if let Some(rest) = str_strip_prefix(path, "/dev/tty.") {
            let mut name = "/dev/cu.".to_owned();
            name.append(rest);
            return name;
        }
    }
    path.to_owned()
}

/// Whether a port name looks like a USB-serial adapter.
pub fn looks_like_usb_serial(name: &str) -> (b: bool)
    ensures
        b == usb_serial_like(name@),
{
    str_starts_with(name, "/dev/cu.usbserial") || str_starts_with(name, "/dev/cu.SLAB_USBtoUART")
        || str_starts_with(name, "/dev/cu.wchusbserial") || str_starts_with(name, "/dev/ttyUSB")
        || str_starts_with(name, "/dev/ttyACM")
}

/// Once a prefix of `ports` has a port of some rank, that port stays the
/// first of its rank in every longer prefix.
proof fn lemma_first_of_rank_stable(ports: Seq<PortCandidate>, i: int, rank: int, on_macos: bool)
    requires
        0 <= i <= ports.len(),
        first_of_rank(ports.take(i), rank, on_macos) is Some,
    ensures
        first_of_rank(ports, rank, on_macos) == first_of_rank(ports.take(i), rank, on_macos),
    decreases ports.len() - i,
{
    if i < ports.len() {
        assert(ports.take(i + 1).drop_last() =~= ports.take(i));
        lemma_first_of_rank_stable(ports, i + 1, rank, on_macos);
    } else {
        assert(ports.take(i) =~= ports);
    }
}

/// No port matches `rank`: the rank yields nothing.
proof fn lemma_first_of_rank_none(ports: Seq<PortCandidate>, rank: int, on_macos: bool)
    requires
        forall|j: int| 0 <= j < ports.len() ==> !rank_matches(rank, #[trigger] ports[j], on_macos),
    ensures
        first_of_rank(ports, rank, on_macos) is None,
    decreases ports.len(),
{
    if ports.len() > 0 {
        let prev = ports.drop_last();
        assert forall|j: int| 0 <= j < prev.len() implies !rank_matches(
            rank,
            #[trigger] prev[j],
            on_macos,
        ) by {
            assert(prev[j] == ports[j]);
        }
        lemma_first_of_rank_none(prev, rank, on_macos);
        assert(!rank_matches(rank, ports[ports.len() - 1], on_macos));
    }
}

/// Port `i` is the first to match `rank`: the rank yields its
/// callout-preferred name.
proof fn lemma_first_of_rank_at(ports: Seq<PortCandidate>, rank: int, on_macos: bool, i: int)
    requires
        0 <= i < ports.len(),
        rank_matches(rank, ports[i], on_macos),
        forall|j: int| 0 <= j < i ==> !rank_matches(rank, #[trigger] ports[j], on_macos),
    ensures
        first_of_rank(ports, rank, on_macos) == Some(callout_name(ports[i].name@, on_macos)),
    decreases ports.len(),
{
    let prev = ports.drop_last();
    if i < ports.len() - 1 {
        assert forall|j: int| 0 <= j < i implies !rank_matches(rank, #[trigger] prev[j], on_macos) by {
            assert(prev[j] == ports[j]);
        }
        assert(prev[i] == ports[i]);
        lemma_first_of_rank_at(prev, rank, on_macos, i);
    } else {
        assert forall|j: int| 0 <= j < prev.len() implies !rank_matches(
            rank,
            #[trigger] prev[j],
            on_macos,
        ) by {
            assert(prev[j] == ports[j]);
        }
        lemma_first_of_rank_none(prev, rank, on_macos);
    }
}

/// A port with USB ids `10C4:EA60` or `1A86:7523` is chosen over every other
/// port, USB or not, wherever it stands: the first such port is selected,
/// under its callout-preferred name (its own name off macOS).
pub proof fn lemma_slamtec_bridge_is_chosen(ports: Seq<PortCandidate>, i: int, on_macos: bool)
    requires
        0 <= i < ports.len(),
        ports[i].usb == Some((0x10C4u16, 0xEA60u16)) || ports[i].usb == Some(
            (0x1A86u16, 0x7523u16),
        ),
        forall|j: int|
            0 <= j < i ==> !(#[trigger] ports[j].usb == Some((0x10C4u16, 0xEA60u16))
                || ports[j].usb == Some((0x1A86u16, 0x7523u16))),
    ensures
        selected_port(ports, on_macos) == Some(callout_name(ports[i].name@, on_macos)),
        !on_macos ==> selected_port(ports, on_macos) == Some(ports[i].name@),
{
    assert forall|j: int| 0 <= j < i implies !rank_matches(0, #[trigger] ports[j], on_macos) by {
        if let Some(ids) = ports[j].usb {
            assert(ports[j].usb == Some((ids.0, ids.1)));
        }
    }
    lemma_first_of_rank_at(ports, 0, on_macos, i);
}

/// With no SLAMTEC bridge among the ports, the first USB port is chosen
/// over every port that is not USB, wherever it stands, under its
/// callout-preferred name.
pub proof fn lemma_first_usb_port_is_chosen_next(ports: Seq<PortCandidate>, i: int, on_macos: bool)
    requires
        0 <= i < ports.len(),
        ports[i].usb is Some,
        forall|j: int| 0 <= j < i ==> (#[trigger] ports[j]).usb is None,
        forall|j: int|
            0 <= j < ports.len() ==> !(#[trigger] ports[j].usb == Some((0x10C4u16, 0xEA60u16))
                || ports[j].usb == Some((0x1A86u16, 0x7523u16))),
    ensures
        selected_port(ports, on_macos) == Some(callout_name(ports[i].name@, on_macos)),
        !on_macos ==> selected_port(ports, on_macos) == Some(ports[i].name@),
{
    assert forall|j: int| 0 <= j < ports.len() implies !rank_matches(
        0,
        #[trigger] ports[j],
        on_macos,
    ) by {
        if let Some(ids) = ports[j].usb {
            assert(ports[j].usb == Some((ids.0, ids.1)));
        }
    }
    lemma_first_of_rank_none(ports, 0, on_macos);
    lemma_first_of_rank_at(ports, 1, on_macos, i);
}

/// Whatever rank chose it, the selected name is one of the ports' names,
/// with `/dev/tty.` rewritten to `/dev/cu.` on macOS: on macOS the result
/// never names a `/dev/tty.*` device.
pub proof fn lemma_selected_port_prefers_callout(ports: Seq<PortCandidate>, on_macos: bool)
    ensures
        selected_port(ports, on_macos) matches Some(n) ==> exists|k: int|
            0 <= k < ports.len() && {
                let name = #[trigger] ports[k].name@;
                if on_macos && "/dev/tty."@.is_prefix_of(name) {
                    n == "/dev/cu."@ + name.skip(9)
                } else {
                    n == name
                }
            },
        on_macos ==> (selected_port(ports, on_macos) matches Some(n) ==> !"/dev/tty."@.is_prefix_of(
            n,
        )),
{
    reveal_strlit("/dev/tty.");
    reveal_strlit("/dev/cu.");
    lemma_first_of_rank_is_a_port(ports, 0, on_macos);
    lemma_first_of_rank_is_a_port(ports, 1, on_macos);
    lemma_first_of_rank_is_a_port(ports, 2, on_macos);
    if let Some(n) = selected_port(ports, on_macos) {
        let k = choose|k: int| 0 <= k < ports.len() && n == callout_name(ports[k].name@, on_macos);
        let name = ports[k].name@;
        if on_macos {
            if "/dev/tty."@.is_prefix_of(name) {
                assert(n[5] == 'c');
                assert("/dev/tty."@[5] == 't');
            }
        }
    }
}

/// Each rank yields the callout-preferred name of one of the ports.
proof fn lemma_first_of_rank_is_a_port(ports: Seq<PortCandidate>, rank: int, on_macos: bool)
    ensures
        first_of_rank(ports, rank, on_macos) matches Some(n) ==> exists|k: int|
            0 <= k < ports.len() && n == callout_name(#[trigger] ports[k].name@, on_macos),
    decreases ports.len(),
{
    if ports.len() > 0 {
        let prev = ports.drop_last();
        lemma_first_of_rank_is_a_port(prev, rank, on_macos);
        if let Some(n) = first_of_rank(prev, rank, on_macos) {
            let k = choose|k: int| 0 <= k < prev.len() && n == callout_name(prev[k].name@, on_macos);
            assert(prev[k] == ports[k]);
        } else if first_of_rank(ports, rank, on_macos) is Some {
            let k = ports.len() - 1;
            assert(first_of_rank(ports, rank, on_macos) == Some(callout_name(ports[k].name@, on_macos)));
        }
    }
}

/// Picks the serial port a SLAMTEC lidar is most likely attached to, among
/// the ports found on the host.
///
/// Preference order: the first USB port whose VID/PID matches a bridge chip
/// SLAMTEC ships (`CP210x` `10C4:EA60`, `CH340` `1A86:7523`); else the first
/// other USB port; else the first port whose name looks like a USB-serial
/// adapter. Names are returned callout-preferred (see
/// [`prefer_callout_device`]). `None` when no port is plausible.
pub fn select_lidar_port(ports: &Vec<PortCandidate>, on_macos: bool) -> (chosen: Option<String>)
    ensures
        chosen is Some <==> selected_port(ports@, on_macos) is Some,
        chosen matches Some(n) ==> selected_port(ports@, on_macos) == Some(n@),
{
    let mut usb_fallback: Option<String> = None;
    let mut name_fallback: Option<String> = None;
    let mut i: usize = 0;
    while i < ports.len()
        invariant
            i <= ports@.len(),
            first_of_rank(ports@.take(i as int), 0, on_macos) is None,
            usb_fallback is Some <==> first_of_rank(ports@.take(i as int), 1, on_macos) is Some,
            usb_fallback matches Some(n) ==> first_of_rank(ports@.take(i as int), 1, on_macos)
                == Some(n@),
            name_fallback is Some <==> first_of_rank(ports@.take(i as int), 2, on_macos) is Some,
            name_fallback matches Some(n) ==> first_of_rank(ports@.take(i as int), 2, on_macos)
                == Some(n@),
        decreases ports@.len() - i,
    {
        let port = &ports[i];
        let name = prefer_callout_device(port.name.as_str(), on_macos);
        let ghost prefix = ports@.take(i as int);
        let ghost next = ports@.take(i + 1);
        assert(next.drop_last() =~= prefix);
        assert(next.last() == ports@[i as int]);
        match port.usb {
            Some((vid, pid)) => {
                if (vid == 0x10C4 && pid == 0xEA60) || (vid == 0x1A86 && pid == 0x7523) {
                    proof {
                        lemma_first_of_rank_stable(ports@, i + 1, 0, on_macos);
                    }
                    return Some(name);
                }
                if usb_fallback.is_none() {
                    usb_fallback = Some(name);
                }
            },
            None => {
                if looks_like_usb_serial(name.as_str()) {
                    if name_fallback.is_none() {
                        name_fallback = Some(name);
                    }
                }
            },
        }
        i = i + 1;
    }
    assert(ports@.take(i as int) =~= ports@);
    match usb_fallback {
        Some(n) => Some(n),
        None => name_fallback,
    }
}

} // verus!
