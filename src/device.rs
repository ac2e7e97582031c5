use vstd::prelude::*;
use vstd::string::*;

verus! {

/// Text used where a device offers no information of its own.
pub open spec fn no_info() -> Seq<char> {
    "No information provided"@
}

/// The kind of a device.
#[derive(Clone, Copy, Debug, PartialEq, Eq, Structural)]
pub enum DeviceType {
    Socket,
    Kettle,
    Thermometer,
}

/// Whether a device is on, off, or broken; a broken device stays broken.
#[derive(Clone, Copy, Debug, PartialEq, Eq, Structural)]
pub enum DeviceState {
    On,
    Off,
    Broken,
}

/// How a state is shown in reports (coloured for a terminal).
pub open spec fn state_text(s: DeviceState) -> Seq<char> {
    match s {
        DeviceState::On => "\x1b[32mВключен\x1b[0m"@,
        DeviceState::Off => "\x1b[33mВыключен\x1b[0m"@,
        DeviceState::Broken => "\x1b[41mНе исправен\x1b[0m"@,
    }
}

impl DeviceState {
    pub fn text(&self) -> (r: String)
        ensures
            r@ == state_text(*self),
    {
        match self {
            DeviceState::On => String::from_str("\x1b[32mВключен\x1b[0m"),
            DeviceState::Off => String::from_str("\x1b[33mВыключен\x1b[0m"),
            DeviceState::Broken => String::from_str("\x1b[41mНе исправен\x1b[0m"),
        }
    }
}

/// The decimal digit `d`.
pub open spec fn digit_char(d: nat) -> char {
    if d == 0 {
        '0'
    } else if d == 1 {
        '1'
    } else if d == 2 {
        '2'
    } else if d == 3 {
        '3'
    } else if d == 4 {
        '4'
    } else if d == 5 {
        '5'
    } else if d == 6 {
        '6'
    } else if d == 7 {
        '7'
    } else if d == 8 {
        '8'
    } else {
        '9'
    }
}

/// `n` written in decimal, without leading zeros.
pub open spec fn decimal(n: nat) -> Seq<char>
    decreases n,
{
    if n < 10 {
        seq![digit_char(n)]
    } else {
        decimal(n / 10).push(digit_char(n % 10))
    }
}

/// A quantity held in hundredths, written with two decimals (`1520` is `15.20`).
pub open spec fn centi_text(n: nat) -> Seq<char> {
    decimal(n / 100) + seq!['.', digit_char((n % 100) / 10), digit_char(n % 10)]
}

fn digit_str(d: u32) -> (r: &'static str)
    requires
        d < 10,
    ensures
        r@ == seq![digit_char(d as nat)],
{
    proof {
        reveal_strlit("0");
        reveal_strlit("1");
        reveal_strlit("2");
        reveal_strlit("3");
        reveal_strlit("4");
        reveal_strlit("5");
        reveal_strlit("6");
        reveal_strlit("7");
        reveal_strlit("8");
        reveal_strlit("9");
    }
    if d == 0 {
        "0"
    } else if d == 1 {
        "1"
    } else if d == 2 {
        "2"
    } else if d == 3 {
        "3"
    } else if d == 4 {
        "4"
    } else if d == 5 {
        "5"
    } else if d == 6 {
        "6"
    } else if d == 7 {
        "7"
    } else if d == 8 {
        "8"
    } else {
        "9"
    }
}

/// Appends `n` in decimal to `out`.
pub fn push_decimal(out: &mut String, n: u32)
    ensures
        final(out)@ == old(out)@ + decimal(n as nat),
    decreases n,
{
    if n < 10 {
        out.append(digit_str(n));
    } else {
        push_decimal(out, n / 10);
        out.append(digit_str(n % 10));
        assert(decimal(n as nat) == decimal((n / 10) as nat).push(digit_char((n % 10) as nat)));
    }
}

/// Appends `n` hundredths to `out`, with two decimals.
pub fn push_centi(out: &mut String, n: u32)
    ensures
        final(out)@ == old(out)@ + centi_text(n as nat),
{
    push_decimal(out, n / 100);
    out.append(".");
    out.append(digit_str((n % 100) / 10));
    out.append(digit_str(n % 10));
    proof {
        reveal_strlit(".");
        assert(final(out)@ =~= old(out)@ + centi_text(n as nat));
    }
}

/// What a device shows of itself.
pub struct DeviceView {
    pub kind: DeviceType,
    pub name: Seq<char>,
    pub description: Seq<char>,
    pub state: DeviceState,
    /// Its current readings, as text.
    pub info: Seq<char>,
}

/// The report of one device.
pub open spec fn report_text(d: DeviceView) -> Seq<char> {
    "Устройство: "@ + d.name + "\n    Описание: "@ + d.description + "\n    Состояние: "@
        + state_text(d.state) + "\n    Текущие параметры: "@ + d.info
}

/// The effect of asking a device to enter state `to`: the device after, and
/// the text that tells how it went. A broken device does not change.
pub open spec fn set_state_outcome(d: DeviceView, to: DeviceState) -> (DeviceView, Seq<char>) {
    if d.state == DeviceState::Broken {
        (d, "failed, can't change state, device is broken!"@)
    } else {
        (DeviceView { state: to, ..d }, "ok, state was set"@)
    }
}

/// The effect of the `switch` operation with argument `to`.
pub open spec fn switch_outcome(d: DeviceView, to: Seq<char>) -> (DeviceView, Seq<char>) {
    if to == "on"@ {
        set_state_outcome(d, DeviceState::On)
    } else if to == "off"@ {
        set_state_outcome(d, DeviceState::Off)
    } else if to == "broken"@ {
        set_state_outcome(d, DeviceState::Broken)
    } else {
        (d, no_info())
    }
}

pub open spec fn socket_info(power: nat) -> Seq<char> {
    "Текущая мощность: "@ + centi_text(power) + " Вт"@
}

pub open spec fn kettle_info(water: nat, temperature: nat) -> Seq<char> {
    "В чайнике: "@ + centi_text(water) + " л воды, Текущая температура: "@ + centi_text(
        temperature,
    ) + " °C"@
}

pub open spec fn thermometer_info(temperature: nat) -> Seq<char> {
    "Текущая температура: "@ + centi_text(temperature) + " °C"@
}

/// A smart socket; its power is held in hundredths of a watt.
pub struct Socket {
    name: String,
    description: String,
    state: DeviceState,
    power: u32,
}

/// A smart kettle; water volume (litres) and temperature (°C) are held in
/// hundredths.
pub struct Kettle {
    name: String,
    temperature: u32,
    water_volume: u32,
    state: DeviceState,
}

/// A thermometer; its temperature (°C) is held in hundredths.
pub struct Thermometer {
    name: String,
    state: DeviceState,
    temperature: u32,
}

impl Socket {
    pub closed spec fn view(&self) -> DeviceView {
        DeviceView {
            kind: DeviceType::Socket,
            name: self.name@,
            description: self.description@,
            state: self.state,
            info: socket_info(self.power as nat),
        }
    }

    /// A socket named "Smart Socket <id>", off, drawing 15.20 W.
    pub fn new(id: &str) -> (r: Self)
        ensures
            r.view() == (DeviceView {
                kind: DeviceType::Socket,
                name: "Smart Socket "@ + id@,
                description: "Very Powerful Smart Device"@,
                state: DeviceState::Off,
                info: socket_info(1520),
            }),
    {
        Socket {
            name: String::from_str("Smart Socket ").concat(id),
            description: String::from_str("Very Powerful Smart Device"),
            state: DeviceState::Off,
            power: 1520,
        }
    }

    pub fn switch_on(&mut self)
        ensures
            final(self).view() == (DeviceView { state: DeviceState::On, ..old(self).view() }),
    {
        self.state = DeviceState::On;
    }

    pub fn switch_off(&mut self)
        ensures
            final(self).view() == (DeviceView { state: DeviceState::Off, ..old(self).view() }),
    {
        self.state = DeviceState::Off;
    }

    pub fn set_broken(&mut self)
        ensures
            final(self).view() == (DeviceView { state: DeviceState::Broken, ..old(self).view() }),
    {
        self.state = DeviceState::Broken;
    }
}

impl Kettle {
    pub closed spec fn view(&self) -> DeviceView {
        DeviceView {
            kind: DeviceType::Kettle,
            name: self.name@,
            description: no_info(),
            state: self.state,
            info: kettle_info(self.water_volume as nat, self.temperature as nat),
        }
    }

    /// A kettle named "Smart Kettle <id>", off, holding 1.10 l of water at 0.00 °C.
    pub fn new(id: &str) -> (r: Self)
        ensures
            r.view() == (DeviceView {
                kind: DeviceType::Kettle,
                name: "Smart Kettle "@ + id@,
                description: no_info(),
                state: DeviceState::Off,
                info: kettle_info(110, 0),
            }),
    {
        Kettle {
            name: String::from_str("Smart Kettle ").concat(id),
            temperature: 0,
            water_volume: 110,
            state: DeviceState::Off,
        }
    }

    pub fn switch_on(&mut self)
        ensures
            final(self).view() == (DeviceView { state: DeviceState::On, ..old(self).view() }),
    {
        self.state = DeviceState::On;
    }

    pub fn switch_off(&mut self)
        ensures
            final(self).view() == (DeviceView { state: DeviceState::Off, ..old(self).view() }),
    {
        self.state = DeviceState::Off;
    }
}

impl Thermometer {
    pub closed spec fn view(&self) -> DeviceView {
        DeviceView {
            kind: DeviceType::Thermometer,
            name: self.name@,
            description: no_info(),
            state: self.state,
            info: thermometer_info(self.temperature as nat),
        }
    }

    /// A thermometer named "Thermometer <id>", on, reading 0.00 °C.
    pub fn new(id: &str) -> (r: Self)
        ensures
            r.view() == (DeviceView {
                kind: DeviceType::Thermometer,
                name: "Thermometer "@ + id@,
                description: no_info(),
                state: DeviceState::On,
                info: thermometer_info(0),
            }),
    {
        Thermometer {
            name: String::from_str("Thermometer ").concat(id),
            state: DeviceState::On,
            temperature: 0,
        }
    }
}

/// A device of any kind, as the home holds it.
pub enum SmartDevice {
    Socket(Socket),
    Kettle(Kettle),
    Thermometer(Thermometer),
}

impl View for SmartDevice {
    type V = DeviceView;

    open spec fn view(&self) -> DeviceView {
        match self {
            SmartDevice::Socket(d) => d.view(),
            SmartDevice::Kettle(d) => d.view(),
            SmartDevice::Thermometer(d) => d.view(),
        }
    }
}

impl SmartDevice {
    pub fn get_type(&self) -> (r: DeviceType)
        ensures
            r == self@.kind,
    {
        match self {
            SmartDevice::Socket(_) => DeviceType::Socket,
            SmartDevice::Kettle(_) => DeviceType::Kettle,
            SmartDevice::Thermometer(_) => DeviceType::Thermometer,
        }
    }

    pub fn get_name(&self) -> (r: String)
        ensures
            r@ == self@.name,
    {
        match self {
            SmartDevice::Socket(d) => d.name.clone(),
            SmartDevice::Kettle(d) => d.name.clone(),
            SmartDevice::Thermometer(d) => d.name.clone(),
        }
    }

    /// Compares the device's name with `name`.
    pub fn has_name(&self, name: &str) -> (r: bool)
        ensures
            r == (self@.name == name@),
    {
        let n = self.get_name();
        let other = String::from_str(name);
        n == other
    }

    pub fn get_description(&self) -> (r: String)
        ensures
            r@ == self@.description,
    {
        match self {
            SmartDevice::Socket(d) => d.description.clone(),
            _ => String::from_str("No information provided"),
        }
    }

    pub fn device_state(&self) -> (r: DeviceState)
        ensures
            r == self@.state,
    {
        match self {
            SmartDevice::Socket(d) => d.state,
            SmartDevice::Kettle(d) => d.state,
            SmartDevice::Thermometer(d) => d.state,
        }
    }

    pub fn get_current_info(&self) -> (r: String)
        ensures
            r@ == self@.info,
    {
        match self {
            SmartDevice::Socket(d) => {
                let mut s = String::from_str("Текущая мощность: ");
                push_centi(&mut s, d.power);
                s.append(" Вт");
                s
            },
            SmartDevice::Kettle(d) => {
                let mut s = String::from_str("В чайнике: ");
                push_centi(&mut s, d.water_volume);
                s.append(" л воды, Текущая температура: ");
                push_centi(&mut s, d.temperature);
                s.append(" °C");
                s
            },
            SmartDevice::Thermometer(d) => {
                let mut s = String::from_str("Текущая температура: ");
                push_centi(&mut s, d.temperature);
                s.append(" °C");
                s
            },
        }
    }

    /// Name, description, state and readings of the device, one per line.
    pub fn report(&self) -> (r: String)
        ensures
            r@ == report_text(self@),
    {
        let mut s = String::from_str("Устройство: ");
        s.append(self.get_name().as_str());
        s.append("\n    Описание: ");
        s.append(self.get_description().as_str());
        s.append("\n    Состояние: ");
        s.append(self.device_state().text().as_str());
        s.append("\n    Текущие параметры: ");
        s.append(self.get_current_info().as_str());
        s
    }

    /// Puts the device in state `to`, unless it is broken.
    pub fn set_device_state(&mut self, to: DeviceState) -> (r: String)
        ensures
            (final(self)@, r@) == set_state_outcome(old(self)@, to),
    {
        if self.device_state() == DeviceState::Broken {
            return String::from_str("failed, can't change state, device is broken!");
        }
        match self {
            SmartDevice::Socket(d) => d.state = to,
            SmartDevice::Kettle(d) => d.state = to,
            SmartDevice::Thermometer(d) => d.state = to,
        }
        String::from_str("ok, state was set")
    }

    /// Switches the device "on", "off" or "broken"; any other argument
    /// changes nothing.
    pub fn switch(&mut self, to: &str) -> (r: String)
        ensures
            (final(self)@, r@) == switch_outcome(old(self)@, to@),
    {
        let t = String::from_str(to);
        if t == String::from_str("on") {
            self.set_device_state(DeviceState::On)
        } else if t == String::from_str("off") {
            self.set_device_state(DeviceState::Off)
        } else if t == String::from_str("broken") {
            self.set_device_state(DeviceState::Broken)
        } else {
            String::from_str("No information provided")
        }
    }
}

} // verus!
