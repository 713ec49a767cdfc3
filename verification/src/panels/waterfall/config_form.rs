//! The radio and audio settings that are shown while the console is unlocked.

use vstd::prelude::*;

use crate::settings::{HardwareConfig, DEFAULT_BAUD};
use crate::text::owned;
use crate::types::{clone_text, Band, ContestProfile, LineProfile, Protocol, SerialConfig};

verus! {

/// The settings that are being edited. They are taken from the hardware in use when the
/// form opens, and put to use when the console is locked again.
pub struct ConfigForm {
    /// Whether the settings were taken over since the form opened.
    pub loaded: bool,
    pub audio_input: Option<String>,
    pub audio_output: Option<String>,
    pub port: Option<String>,
    pub baud: u32,
    pub profile: LineProfile,
    pub autodetect: bool,
    pub protocol: Protocol,
    /// The bands that the station can use, in the order in which they were checked.
    pub active_bands: Vec<Band>,
    pub audio_devices: Vec<String>,
    pub audio_output_devices: Vec<String>,
    pub serial_ports: Vec<String>,
}

/// The identity of a USB device: vendor, product, and serial number.
pub struct UsbIdentity {
    pub vid: Option<u16>,
    pub pid: Option<u16>,
    pub serial: Option<String>,
}

impl Default for ConfigForm {
    fn default() -> (r: Self)
        ensures
            !r.loaded,
            r.audio_input is None,
            r.audio_output is None,
            r.port is None,
            r.baud == DEFAULT_BAUD,
            r.profile == LineProfile::Default,
            r.autodetect,
            r.protocol == Protocol::Ft8,
            r.active_bands@.len() == 0,
            r.audio_devices@.len() == 0,
            r.audio_output_devices@.len() == 0,
            r.serial_ports@.len() == 0,
    {
        ConfigForm {
            loaded: false,
            audio_input: None,
            audio_output: None,
            port: None,
            baud: DEFAULT_BAUD,
            profile: LineProfile::Default,
            autodetect: true,
            protocol: Protocol::Ft8,
            active_bands: Vec::new(),
            audio_devices: Vec::new(),
            audio_output_devices: Vec::new(),
            serial_ports: Vec::new(),
        }
    }
}

/// Those of `universe` that are in `chosen`, in the order of `universe`.
pub open spec fn in_order(universe: Seq<Band>, chosen: Seq<Band>) -> Seq<Band>
    decreases universe.len(),
{
    if universe.len() == 0 {
        Seq::empty()
    } else {
        let front = in_order(universe.drop_last(), chosen);
        if chosen.contains(universe.last()) {
            front.push(universe.last())
        } else {
            front
        }
    }
}

/// The bands without one of them.
pub open spec fn without(bands: Seq<Band>, b: Band) -> Seq<Band>
    decreases bands.len(),
{
    if bands.len() == 0 {
        Seq::empty()
    } else {
        let front = without(bands.drop_last(), b);
        if bands.last() == b {
            front
        } else {
            front.push(bands.last())
        }
    }
}

/// Whether a list holds a band.
pub fn has_band(bands: &Vec<Band>, b: Band) -> (r: bool)
    ensures
        r == bands@.contains(b),
{
    let mut i: usize = 0;
    while i < bands.len()
        invariant
            i <= bands.len(),
            forall|j: int| 0 <= j < i ==> bands@[j] != b,
        decreases bands.len() - i,
    {
        if bands[i] == b {
            return true;
        }
        i = i + 1;
    }
    false
}

/// Whether two lists hold the same bands in the same order.
fn same_bands(a: &Vec<Band>, b: &Vec<Band>) -> (r: bool)
    ensures
        r == (a@ == b@),
{
    if a.len() != b.len() {
        return false;
    }
    let mut i: usize = 0;
    while i < a.len()
        invariant
            i <= a.len(),
            a@.len() == b@.len(),
            forall|j: int| 0 <= j < i ==> a@[j] == b@[j],
        decreases a.len() - i,
    {
        if a[i] != b[i] {
            return false;
        }
        i = i + 1;
    }
    assert(a@ == b@);
    true
}

impl ConfigForm {
    /// Takes the hardware in use over, with the devices and ports that there are.
    pub fn load(
        &mut self,
        cfg: HardwareConfig,
        bands: Vec<Band>,
        audio_devices: Vec<String>,
        audio_output_devices: Vec<String>,
        serial_ports: Vec<String>,
    )
        ensures
            *final(self) == (ConfigForm {
                loaded: true,
                audio_input: cfg.audio_input,
                audio_output: cfg.audio_output,
                port: cfg.serial.port,
                baud: cfg.serial.baud,
                profile: cfg.serial.profile,
                autodetect: cfg.serial.autodetect,
                protocol: cfg.protocol,
                active_bands: bands,
                audio_devices,
                audio_output_devices,
                serial_ports,
            }),
    {
        self.audio_input = cfg.audio_input;
        self.audio_output = cfg.audio_output;
        self.port = cfg.serial.port;
        self.baud = cfg.serial.baud;
        self.profile = cfg.serial.profile;
        self.autodetect = cfg.serial.autodetect;
        self.protocol = cfg.protocol;
        self.active_bands = bands;
        self.audio_devices = audio_devices;
        self.audio_output_devices = audio_output_devices;
        self.serial_ports = serial_ports;
        self.loaded = true;
    }

    /// Whether a port is chosen, whose USB identity is then to be looked up.
    pub open spec fn port_chosen(self) -> bool {
        self.port is Some && self.port->Some_0@.len() > 0
    }

    /// The edited settings. The USB identity counts only where a port is chosen.
    pub open spec fn edited(self, usb: UsbIdentity) -> HardwareConfig {
        let chosen = self.port_chosen();
        HardwareConfig {
            audio_input: self.audio_input,
            audio_output: self.audio_output,
            serial: SerialConfig {
                port: self.port,
                usb_serial: if chosen {
                    usb.serial
                } else {
                    None
                },
                usb_vid: if chosen {
                    usb.vid
                } else {
                    None
                },
                usb_pid: if chosen {
                    usb.pid
                } else {
                    None
                },
                baud: self.baud,
                profile: self.profile,
                autodetect: self.autodetect,
            },
            protocol: self.protocol,
        }
    }

    /// The port whose USB identity is to be looked up.
    pub fn chosen_port(&self) -> (r: Option<&str>)
        ensures
            match r {
                Some(p) => self.port_chosen() && p@ == self.port->Some_0@,
                None => !self.port_chosen(),
            },
    {
        match &self.port {
            Some(p) => if crate::text::chars_of(p.as_str()).len() > 0 {
                Some(p.as_str())
            } else {
                None
            },
            None => None,
        }
    }

    /// The edited settings, where `usb` is the identity of the chosen port. It finds the
    /// radio again when its port path has changed.
    pub fn to_config(&self, usb: UsbIdentity) -> (r: HardwareConfig)
        ensures
            r == self.edited(usb),
    {
        let chosen: bool = self.chosen_port().is_some();
        let (usb_vid, usb_pid, usb_serial): (Option<u16>, Option<u16>, Option<String>) =
            if chosen {
            (usb.vid, usb.pid, usb.serial)
        } else {
            (None, None, None)
        };
        HardwareConfig {
            audio_input: clone_text(&self.audio_input),
            audio_output: clone_text(&self.audio_output),
            serial: SerialConfig {
                port: clone_text(&self.port),
                usb_serial,
                usb_vid,
                usb_pid,
                baud: self.baud,
                profile: self.profile,
                autodetect: self.autodetect,
            },
            protocol: self.protocol,
        }
    }

    /// The bands that the station can use, in the order of `universe`.
    pub fn active_bands(&self, universe: &Vec<Band>) -> (r: Vec<Band>)
        ensures
            r@ == in_order(universe@, self.active_bands@),
    {
        let mut r: Vec<Band> = Vec::new();
        let mut i: usize = 0;
        while i < universe.len()
            invariant
                i <= universe.len(),
                r@ == in_order(universe@.take(i as int), self.active_bands@),
            decreases universe.len() - i,
        {
            assert(universe@.take(i + 1).drop_last() == universe@.take(i as int));
            if has_band(&self.active_bands, universe[i]) {
                r.push(universe[i]);
            }
            i = i + 1;
        }
        assert(universe@.take(universe@.len() as int) == universe@);
        r
    }

    /// The bands to put to use when the console is locked: those that are checked, where
    /// the form was open and they differ from those in use.
    pub fn changed_bands(&self, universe: &Vec<Band>, current: &Vec<Band>) -> (r: Option<
        Vec<Band>,
    >)
        ensures
            match r {
                Some(v) => self.loaded && v@ == in_order(universe@, self.active_bands@) && v@
                    != current@,
                None => !self.loaded || in_order(universe@, self.active_bands@) == current@,
            },
    {
        if !self.loaded {
            return None;
        }
        let chosen: Vec<Band> = self.active_bands(universe);
        if same_bands(&chosen, current) {
            None
        } else {
            Some(chosen)
        }
    }

    /// Checks a band or takes its mark away.
    pub fn set_band(&mut self, band: Band, on: bool)
        ensures
            final(self).active_bands@ == (if on {
                old(self).active_bands@.push(band)
            } else {
                without(old(self).active_bands@, band)
            }),
            *final(self) == (ConfigForm {
                active_bands: final(self).active_bands,
                ..*old(self)
            }),
    {
        if on {
            self.active_bands.push(band);
        } else {
            let mut left: Vec<Band> = Vec::new();
            let mut i: usize = 0;
            let ghost all = self.active_bands@;
            while i < self.active_bands.len()
                invariant
                    i <= self.active_bands.len(),
                    all == self.active_bands@,
                    left@ == without(all.take(i as int), band),
                decreases self.active_bands.len() - i,
            {
                assert(all.take(i + 1).drop_last() == all.take(i as int));
                if self.active_bands[i] != band {
                    left.push(self.active_bands[i]);
                }
                i = i + 1;
            }
            assert(all.take(all.len() as int) == all);
            self.active_bands = left;
        }
    }

    /// What the port picker shows.
    pub fn port_text(&self) -> (r: String)
        ensures
            r@ == (match self.port {
                Some(p) => p@,
                None => if self.serial_ports@.len() == 0 {
                    "(no ports found)"@
                } else {
                    "(select port)"@
                },
            }),
    {
        match &self.port {
            Some(p) => p.clone(),
            None => if self.serial_ports.len() == 0 {
                owned("(no ports found)")
            } else {
                owned("(select port)")
            },
        }
    }
}

/// What a device picker shows.
pub fn device_text(device: &Option<String>) -> (r: String)
    ensures
        r@ == (match *device {
            Some(d) => d@,
            None => "(system default)"@,
        }),
{
    match device {
        Some(d) => d.clone(),
        None => owned("(system default)"),
    }
}

/// A band that was checked is among the active bands, and one that was unchecked is not;
/// the others stay as they were.
pub proof fn law_band_check(universe: Seq<Band>, chosen: Seq<Band>, band: Band, other: Band)
    requires
        universe.contains(band),
        other != band,
    ensures
        in_order(universe, chosen.push(band)).contains(band),
        !in_order(universe, without(chosen, band)).contains(band),
        in_order(universe, chosen.push(band)).contains(other) <==> in_order(
            universe,
            chosen,
        ).contains(other),
        in_order(universe, without(chosen, band)).contains(other) <==> in_order(
            universe,
            chosen,
        ).contains(other),
{
    lemma_in_order(universe, chosen, other);
    lemma_in_order(universe, chosen.push(band), band);
    lemma_in_order(universe, chosen.push(band), other);
    lemma_in_order(universe, without(chosen, band), band);
    lemma_in_order(universe, without(chosen, band), other);
    lemma_without(chosen, band, band);
    lemma_without(chosen, band, other);
    assert(chosen.push(band)[chosen.len() as int] == band);
    if chosen.contains(other) {
        let x = choose|x: int| 0 <= x < chosen.len() && chosen[x] == other;
        assert(chosen.push(band)[x] == other);
    }
    if chosen.push(band).contains(other) {
        let x = choose|x: int| 0 <= x < chosen.len() + 1 && chosen.push(band)[x] == other;
        assert(chosen[x] == other);
    }
}

/// What is chosen in order is what is both chosen and there.
proof fn lemma_in_order(universe: Seq<Band>, chosen: Seq<Band>, b: Band)
    ensures
        in_order(universe, chosen).contains(b) <==> universe.contains(b) && chosen.contains(b),
    decreases universe.len(),
{
    if universe.len() > 0 {
        let u = universe.drop_last();
        lemma_in_order(u, chosen, b);
        let f = in_order(u, chosen);
        let g = in_order(universe, chosen);
        let last = universe.len() - 1;
        if u.contains(b) {
            let x = choose|x: int| 0 <= x < u.len() && u[x] == b;
            assert(universe[x] == b);
        }
        if universe.contains(b) {
            let x = choose|x: int| 0 <= x < universe.len() && universe[x] == b;
            if x < last {
                assert(u[x] == b);
            }
        }
        if f.contains(b) {
            let x = choose|x: int| 0 <= x < f.len() && f[x] == b;
            assert(g[x] == b);
        }
        if chosen.contains(universe[last]) {
            assert(g[g.len() - 1] == universe[last]);
        }
        if g.contains(b) {
            let x = choose|x: int| 0 <= x < g.len() && g[x] == b;
            if x < f.len() {
                assert(f[x] == b);
            }
        }
    }
}

/// What was put in order stays as it is when it is put in order again.
pub proof fn law_order_is_settled(universe: Seq<Band>, chosen: Seq<Band>)
    ensures
        in_order(universe, in_order(universe, chosen)) == in_order(universe, chosen),
{
    let bs = in_order(universe, chosen);
    assert forall|i: int| 0 <= i < universe.len() implies (bs.contains(#[trigger] universe[i])
        <==> chosen.contains(universe[i])) by {
        lemma_in_order(universe, chosen, universe[i]);
    }
    lemma_same_choice(universe, bs, chosen);
}

/// Choices that agree on what there is are the same in order.
proof fn lemma_same_choice(universe: Seq<Band>, a: Seq<Band>, b: Seq<Band>)
    requires
        forall|i: int|
            0 <= i < universe.len() ==> (a.contains(#[trigger] universe[i]) <==> b.contains(
                universe[i],
            )),
    ensures
        in_order(universe, a) == in_order(universe, b),
    decreases universe.len(),
{
    if universe.len() > 0 {
        let u = universe.drop_last();
        assert forall|i: int| 0 <= i < u.len() implies (a.contains(#[trigger] u[i])
            <==> b.contains(u[i])) by {
            assert(u[i] == universe[i]);
        }
        lemma_same_choice(u, a, b);
        assert(universe.last() == universe[universe.len() - 1]);
    }
}

/// What is left without a band.
proof fn lemma_without(bands: Seq<Band>, b: Band, c: Band)
    ensures
        without(bands, b).contains(c) <==> bands.contains(c) && c != b,
    decreases bands.len(),
{
    if bands.len() > 0 {
        let u = bands.drop_last();
        lemma_without(u, b, c);
        let f = without(u, b);
        let g = without(bands, b);
        let last = bands.len() - 1;
        if u.contains(c) {
            let x = choose|x: int| 0 <= x < u.len() && u[x] == c;
            assert(bands[x] == c);
        }
        if bands.contains(c) {
            let x = choose|x: int| 0 <= x < bands.len() && bands[x] == c;
            if x < last {
                assert(u[x] == c);
            }
        }
        if f.contains(c) {
            let x = choose|x: int| 0 <= x < f.len() && f[x] == c;
            assert(g[x] == c);
        }
        if bands[last] != b {
            assert(g[g.len() - 1] == bands[last]);
        }
        if g.contains(c) {
            let x = choose|x: int| 0 <= x < g.len() && g[x] == c;
            if x < f.len() {
                assert(f[x] == c);
            }
        }
    }
}

/// The name of a contest.
pub fn contest_label(c: ContestProfile) -> (s: &'static str)
    ensures
        s@ == match c {
            ContestProfile::Standard => "None"@,
            ContestProfile::ArrlFieldDay => "ARRL Field Day"@,
        },
{
    match c {
        ContestProfile::Standard => "None",
        ContestProfile::ArrlFieldDay => "ARRL Field Day",
    }
}

/// The name of a protocol.
pub fn proto_label(p: Protocol) -> (s: &'static str)
    ensures
        s@ == match p {
            Protocol::Ft8 => "FT8"@,
            Protocol::Ft4 => "FT4"@,
        },
{
    match p {
        Protocol::Ft8 => "FT8",
        Protocol::Ft4 => "FT4",
    }
}

/// The name of a line profile.
pub fn profile_label(p: LineProfile) -> (s: &'static str)
    ensures
        s@ == match p {
            LineProfile::Default => "None (default)"@,
            LineProfile::AssertDtrRts => "DTR/RTS"@,
            LineProfile::HardwareFlow => "RTS/CTS (hardware)"@,
        },
{
    match p {
        LineProfile::Default => "None (default)",
        LineProfile::AssertDtrRts => "DTR/RTS",
        LineProfile::HardwareFlow => "RTS/CTS (hardware)",
    }
}

} // verus!
