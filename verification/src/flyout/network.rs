//! The network flyout's connection card and signal colors.

use vstd::prelude::*;

use crate::flyout::ui::Id;
use crate::theme::Color;

verus! {

/// Red, for a signal at -80 dBm and below.
pub open spec fn signal_poor() -> Color {
    Color(0xFF3B30)
}

/// Orange, for a signal to -67 dBm.
pub open spec fn signal_fair() -> Color {
    Color(0xFF9500)
}

/// Green, for a signal above that.
pub open spec fn signal_good() -> Color {
    Color(0x34C759)
}

/// A connection row answers to this plus its place in the card.
pub const COPY_BASE: u32 = 0x100;

pub open spec fn spec_signal_color(rssi: int) -> Color {
    if rssi <= -80 {
        signal_poor()
    } else if rssi <= -67 {
        signal_fair()
    } else {
        signal_good()
    }
}

/// Red at -80 dBm and below, orange to -67, green above.
pub fn signal_color(rssi: i32) -> (color: Color)
    ensures
        color == spec_signal_color(rssi as int),
{
    if rssi <= -80 {
        Color(0xFF3B30)
    } else if rssi <= -67 {
        Color(0xFF9500)
    } else {
        Color(0x34C759)
    }
}

/// A stronger signal is never drawn in a worse color.
pub proof fn a_stronger_signal_never_looks_worse(weaker: int, stronger: int)
    requires
        weaker <= stronger,
    ensures
        spec_signal_color(weaker) == signal_good() ==> spec_signal_color(stronger) == signal_good(),
        spec_signal_color(stronger) == signal_poor() ==> spec_signal_color(weaker) == signal_poor(),
{
}

/// What is known about the connection carrying the rates. Every field
/// starts empty, which is the honest state until the first sample.
#[derive(Clone, Debug, Default, PartialEq)]
pub struct Connection {
    /// The interface's friendly name, "Ethernet". None reads as every
    /// interface summed, which is what the strip's figure is.
    pub interface: Option<String>,
    pub is_vpn: bool,
    /// Whether this interface carries the default route.
    pub is_primary: bool,
    pub ipv4: Vec<String>,
    pub ipv6: Vec<String>,
    pub router: Option<String>,
    pub dns: Vec<String>,
    /// The public address, looked up only when the user allows it.
    pub public_ipv4: Option<String>,
    pub public_ipv6: Option<String>,
    pub shows_public: bool,
    pub errors_in: u64,
    pub errors_out: u64,
}

/// One row of the connection card: its caption and the address it shows.
pub struct CopyRow {
    pub label: &'static str,
    pub value: String,
}

/// The addresses of a list, each under the same caption.
pub open spec fn rows_of(label: Seq<char>, values: Seq<String>) -> Seq<(Seq<char>, Seq<char>)> {
    values.map_values(|v: String| (label, v@))
}

pub open spec fn rows_of_option(label: Seq<char>, value: Option<String>) -> Seq<(Seq<char>, Seq<char>)> {
    match value {
        Some(v) => seq![(label, v@)],
        None => Seq::empty(),
    }
}

impl Connection {
    /// The card's rows, in the order they are laid out, which is the order
    /// the copy ids count them in: IPv4, IPv6, the router, DNS, then the
    /// public addresses when they are shown.
    pub open spec fn copy_rows(&self) -> Seq<(Seq<char>, Seq<char>)> {
        rows_of("IPv4"@, self.ipv4@) + rows_of("IPv6"@, self.ipv6@) + rows_of_option(
            "Router"@,
            self.router,
        ) + rows_of("DNS"@, self.dns@) + if self.shows_public {
            rows_of_option("Public"@, self.public_ipv4) + rows_of_option(
                "Public"@,
                self.public_ipv6,
            )
        } else {
            Seq::empty()
        }
    }

    /// The card's rows, in the order they are laid out.
    pub fn copyable(&self) -> (rows: Vec<CopyRow>)
        ensures
            rows@.map_values(|r: CopyRow| (r.label@, r.value@)) == self.copy_rows(),
    {
        let mut rows: Vec<CopyRow> = Vec::new();
        push_all(&mut rows, "IPv4", &self.ipv4);
        push_all(&mut rows, "IPv6", &self.ipv6);
        push_option(&mut rows, "Router", &self.router);
        push_all(&mut rows, "DNS", &self.dns);
        if self.shows_public {
            push_option(&mut rows, "Public", &self.public_ipv4);
            push_option(&mut rows, "Public", &self.public_ipv6);
        }
        proof {
            let view = |r: CopyRow| (r.label@, r.value@);
            assert(rows@.map_values(view) =~= self.copy_rows());
        }
        rows
    }

    /// The text a press on a connection row copies, by the row's id.
    pub fn copy_text(&self, id: Id) -> (text: Option<String>)
        ensures
            match id {
                Id::Custom(raw) => if raw >= COPY_BASE && raw - COPY_BASE < self.copy_rows().len() {
                    text matches Some(t) && t@ == self.copy_rows()[raw - COPY_BASE].1
                } else {
                    text is None
                },
                _ => text is None,
            },
    {
        let raw = match id {
            Id::Custom(raw) => raw,
            _ => return None,
        };
        if raw < COPY_BASE {
            return None;
        }
        let index = (raw - COPY_BASE) as usize;
        let rows = self.copyable();
        if index < rows.len() {
            proof {
                let view = |r: CopyRow| (r.label@, r.value@);
                assert(rows@.map_values(view)[index as int] == view(rows@[index as int]));
            }
            Some(rows[index].value.clone())
        } else {
            None
        }
    }
}

fn push_all(rows: &mut Vec<CopyRow>, label: &'static str, values: &Vec<String>)
    ensures
        final(rows)@.map_values(|r: CopyRow| (r.label@, r.value@)) == old(rows)@.map_values(
            |r: CopyRow| (r.label@, r.value@),
        ) + rows_of(label@, values@),
{
    let ghost start = old(rows)@.map_values(|r: CopyRow| (r.label@, r.value@));
    let mut i: usize = 0;
    while i < values.len()
        invariant
            i <= values@.len(),
            rows@.map_values(|r: CopyRow| (r.label@, r.value@)) == start + rows_of(
                label@,
                values@.subrange(0, i as int),
            ),
        decreases values@.len() - i,
    {
        let ghost before = rows@;
        rows.push(CopyRow { label, value: values[i].clone() });
        proof {
            let view = |r: CopyRow| (r.label@, r.value@);
            assert(rows@.map_values(view) =~= before.map_values(view).push(
                (label@, values@[i as int]@),
            ));
            assert(rows_of(label@, values@.subrange(0, i + 1)) =~= rows_of(
                label@,
                values@.subrange(0, i as int),
            ).push((label@, values@[i as int]@)));
        }
        i += 1;
    }
    assert(values@.subrange(0, i as int) =~= values@);
}

fn push_option(rows: &mut Vec<CopyRow>, label: &'static str, value: &Option<String>)
    ensures
        final(rows)@.map_values(|r: CopyRow| (r.label@, r.value@)) == old(rows)@.map_values(
            |r: CopyRow| (r.label@, r.value@),
        ) + rows_of_option(label@, *value),
{
    let ghost before = rows@;
    if let Some(v) = value {
        rows.push(CopyRow { label, value: v.clone() });
        proof {
            let view = |r: CopyRow| (r.label@, r.value@);
            assert(rows@.map_values(view) =~= before.map_values(view) + rows_of_option(
                label@,
                *value,
            ));
        }
    } else {
        assert(rows@.map_values(|r: CopyRow| (r.label@, r.value@)) =~= before.map_values(
            |r: CopyRow| (r.label@, r.value@),
        ) + rows_of_option(label@, *value));
    }
}

/// The header's second line: the interface, and the network a radio is on
/// when it carries the default route; before the first sample, a wait.
pub open spec fn subtitle_text(sampled: bool, connection: Connection, ssid: Option<Seq<char>>) -> Seq<char> {
    if !sampled {
        "Waiting for the first sample"@
    } else {
        let name = match connection.interface {
            Some(name) => name@,
            None => "All interfaces"@,
        };
        match ssid {
            Some(network) => if connection.is_primary {
                name + "  \u{00B7}  "@ + network
            } else {
                name
            },
            None => name,
        }
    }
}

/// The header's second line, from whether a sample has arrived, the
/// connection, and the radio's network name when there is a radio that
/// knows it.
pub fn subtitle(sampled: bool, connection: &Connection, ssid: Option<&str>) -> (text: String)
    ensures
        text@ == subtitle_text(
            sampled,
            *connection,
            match ssid {
                Some(n) => Some(n@),
                None => None,
            },
        ),
{
    if !sampled {
        return "Waiting for the first sample".to_string();
    }
    let mut text = match &connection.interface {
        Some(name) => name.clone(),
        None => "All interfaces".to_string(),
    };
    if let Some(network) = ssid {
        if connection.is_primary {
            text.append("  \u{00B7}  ");
            text.append(network);
        }
    }
    text
}

/// What the top-activity card holds.
#[derive(Copy, Clone, Debug, PartialEq, Eq, Structural)]
pub enum ProcessRows {
    /// Per-process activity is not collected here.
    Unavailable,
    /// Nothing is listed yet while the first measurement runs.
    Measuring,
    /// Nothing has used the network lately.
    Quiet,
    /// This many processes, at most the limit.
    Rows(usize),
}

/// One card of the network panel.
#[derive(Copy, Clone, Debug, PartialEq, Eq, Structural)]
pub enum NetworkCard {
    /// The rates graph; it stands before the first sample too.
    Activity,
    /// The processes most active on the network.
    Processes(ProcessRows),
    /// The connection: an errors chip when any packet failed, this many
    /// address rows (a caption when none), and a row saying the public
    /// address could not be looked up when it was asked for and is missing.
    Connection { errors: bool, addresses: usize, public_unavailable: bool },
    /// The radio, when the interface has one.
    Wifi,
}

/// What the top-activity card holds, from how many processes are listed
/// (none when per-process activity is not collected at all).
pub open spec fn process_rows_of(listed: Option<usize>, measuring: bool, limit: usize) -> ProcessRows {
    match listed {
        None => ProcessRows::Unavailable,
        Some(n) => if n == 0 && measuring {
            ProcessRows::Measuring
        } else if n == 0 {
            ProcessRows::Quiet
        } else {
            ProcessRows::Rows(if n < limit { n } else { limit })
        },
    }
}

/// The network panel's cards, in the order they stack: the activity
/// always; once there are rates, the processes when the setting shows
/// them, the connection, and the radio when there is one.
pub open spec fn network_cards_of(
    sampled: bool,
    shows_processes: bool,
    listed: Option<usize>,
    measuring: bool,
    limit: usize,
    connection: Connection,
    radio: bool,
) -> Seq<NetworkCard> {
    if !sampled {
        seq![NetworkCard::Activity]
    } else {
        let head = if shows_processes {
            seq![NetworkCard::Activity, NetworkCard::Processes(process_rows_of(listed, measuring, limit))]
        } else {
            seq![NetworkCard::Activity]
        };
        let with_connection = head.push(
            NetworkCard::Connection {
                errors: connection.errors_in > 0 || connection.errors_out > 0,
                addresses: connection.copy_rows().len() as usize,
                public_unavailable: connection.shows_public && connection.public_ipv4 is None
                    && connection.public_ipv6 is None,
            },
        );
        if radio {
            with_connection.push(NetworkCard::Wifi)
        } else {
            with_connection
        }
    }
}

/// The network panel's cards, from whether rates have arrived, whether the
/// setting shows processes and how many are listed, whether they are being
/// measured, the row limit, the connection, and whether there is a radio.
pub fn network_cards(
    sampled: bool,
    shows_processes: bool,
    listed: Option<usize>,
    measuring: bool,
    limit: usize,
    connection: &Connection,
    radio: bool,
) -> (cards: Vec<NetworkCard>)
    ensures
        cards@ == network_cards_of(sampled, shows_processes, listed, measuring, limit, *connection, radio),
{
    let mut cards: Vec<NetworkCard> = Vec::new();
    cards.push(NetworkCard::Activity);
    if !sampled {
        assert(cards@ =~= seq![NetworkCard::Activity]);
        return cards;
    }
    if shows_processes {
        let rows = match listed {
            None => ProcessRows::Unavailable,
            Some(n) => if n == 0 && measuring {
                ProcessRows::Measuring
            } else if n == 0 {
                ProcessRows::Quiet
            } else {
                ProcessRows::Rows(if n < limit { n } else { limit })
            },
        };
        cards.push(NetworkCard::Processes(rows));
        assert(cards@ =~= seq![NetworkCard::Activity, NetworkCard::Processes(process_rows_of(listed, measuring, limit))]);
    } else {
        assert(cards@ =~= seq![NetworkCard::Activity]);
    }
    let addresses = connection.copyable().len();
    cards.push(
        NetworkCard::Connection {
            errors: connection.errors_in > 0 || connection.errors_out > 0,
            addresses,
            public_unavailable: connection.shows_public && connection.public_ipv4.is_none()
                && connection.public_ipv6.is_none(),
        },
    );
    if radio {
        cards.push(NetworkCard::Wifi);
    }
    cards
}

/// Which color a chip under the rates takes.
#[derive(Copy, Clone, Debug, PartialEq, Eq, Structural)]
pub enum ChipTone {
    /// The panel's first accent.
    Primary,
    /// The color that marks a tunnel.
    Vpn,
    /// The panel's second accent.
    Secondary,
}

/// The chips under the rates once a sample has come: the interface's
/// name, or "All interfaces" when the rates are every interface summed;
/// "VPN" when it is a tunnel; "Primary" when it carries the default route.
pub open spec fn activity_chips_of(connection: Connection) -> Seq<(Seq<char>, ChipTone)> {
    let name = match connection.interface {
        Some(n) => n@,
        None => "All interfaces"@,
    };
    let first = seq![(name, ChipTone::Primary)];
    let with_vpn = if connection.is_vpn { first.push(("VPN"@, ChipTone::Vpn)) } else { first };
    if connection.is_primary {
        with_vpn.push(("Primary"@, ChipTone::Secondary))
    } else {
        with_vpn
    }
}

/// The chips under the rates, in the order they are laid left to right.
pub fn activity_chips(connection: &Connection) -> (chips: Vec<(String, ChipTone)>)
    ensures
        chips@.map_values(|c: (String, ChipTone)| (c.0@, c.1)) == activity_chips_of(*connection),
{
    let name = match &connection.interface {
        Some(n) => n.clone(),
        None => "All interfaces".to_string(),
    };
    let mut chips: Vec<(String, ChipTone)> = Vec::new();
    chips.push((name, ChipTone::Primary));
    let ghost first = chips@.map_values(|c: (String, ChipTone)| (c.0@, c.1));
    if connection.is_vpn {
        chips.push(("VPN".to_string(), ChipTone::Vpn));
        assert(chips@.map_values(|c: (String, ChipTone)| (c.0@, c.1)) =~= first.push(("VPN"@, ChipTone::Vpn)));
    }
    let ghost middle = chips@.map_values(|c: (String, ChipTone)| (c.0@, c.1));
    if connection.is_primary {
        chips.push(("Primary".to_string(), ChipTone::Secondary));
        assert(chips@.map_values(|c: (String, ChipTone)| (c.0@, c.1)) =~= middle.push(("Primary"@, ChipTone::Secondary)));
    }
    assert(first =~= seq![
        (
            match connection.interface {
                Some(n) => n@,
                None => "All interfaces"@,
            },
            ChipTone::Primary,
        ),
    ]);
    chips
}

} // verus!
