use vstd::prelude::*;
use vstd::string::*;
use crate::device::{DeviceView, SmartDevice, report_text, switch_outcome};

verus! {

/// A room as the home shows it: its name and its devices, in the order they
/// were added.
pub struct RoomView {
    pub name: Seq<char>,
    pub devices: Seq<DeviceView>,
}

/// A home as it shows itself: its name and its rooms, in the order they were
/// added.
pub struct HomeView {
    pub name: Seq<char>,
    pub rooms: Seq<RoomView>,
}

pub open spec fn has_room(rooms: Seq<RoomView>, name: Seq<char>) -> bool {
    exists|i: int| 0 <= i < rooms.len() && #[trigger] rooms[i].name == name
}

/// The position of the room called `name` (meaningful where it exists).
pub open spec fn room_pos(rooms: Seq<RoomView>, name: Seq<char>) -> int {
    choose|i: int| 0 <= i < rooms.len() && #[trigger] rooms[i].name == name
}

pub open spec fn has_device(devices: Seq<DeviceView>, name: Seq<char>) -> bool {
    exists|i: int| 0 <= i < devices.len() && #[trigger] devices[i].name == name
}

/// The position of the device called `name` (meaningful where it exists).
pub open spec fn device_pos(devices: Seq<DeviceView>, name: Seq<char>) -> int {
    choose|i: int| 0 <= i < devices.len() && #[trigger] devices[i].name == name
}

pub open spec fn unique_devices(devices: Seq<DeviceView>) -> bool {
    forall|i: int, j: int|
        0 <= i < devices.len() && 0 <= j < devices.len() && i != j ==> #[trigger] devices[i].name
            != #[trigger] devices[j].name
}

/// Room names are unique in the home, device names unique in each room.
pub open spec fn wf_rooms(rooms: Seq<RoomView>) -> bool {
    &&& forall|i: int, j: int|
        0 <= i < rooms.len() && 0 <= j < rooms.len() && i != j ==> #[trigger] rooms[i].name
            != #[trigger] rooms[j].name
    &&& forall|i: int| 0 <= i < rooms.len() ==> unique_devices(#[trigger] rooms[i].devices)
}

/// The names of the rooms, in order.
pub open spec fn room_names(rooms: Seq<RoomView>) -> Seq<Seq<char>> {
    rooms.map_values(|r: RoomView| r.name)
}

/// The texts of a list of strings.
pub open spec fn texts(v: Seq<String>) -> Seq<Seq<char>> {
    v.map_values(|s: String| s@)
}

/// The names of the devices, in order.
pub open spec fn device_names(devices: Seq<DeviceView>) -> Seq<Seq<char>> {
    devices.map_values(|d: DeviceView| d.name)
}

/// `d` put in place of the device of the same name, or added after the
/// others where there is none.
pub open spec fn upsert(devices: Seq<DeviceView>, d: DeviceView) -> Seq<DeviceView> {
    if has_device(devices, d.name) {
        devices.update(device_pos(devices, d.name), d)
    } else {
        devices.push(d)
    }
}

/// The devices of a room built from `ds`: where names repeat, the later
/// device stands in the place of the first.
pub open spec fn collect_devices(ds: Seq<DeviceView>) -> Seq<DeviceView>
    decreases ds.len(),
{
    if ds.len() == 0 {
        Seq::empty()
    } else {
        upsert(collect_devices(ds.drop_last()), ds.last())
    }
}

/// The key of a device in a provider's filter: "room=>device".
pub open spec fn path_of(room: Seq<char>, device: Seq<char>) -> Seq<char> {
    room + "=>"@ + device
}

/// The report section of a list of devices.
pub open spec fn devices_report(ds: Seq<DeviceView>) -> Seq<char>
    decreases ds.len(),
{
    if ds.len() == 0 {
        Seq::empty()
    } else {
        devices_report(ds.drop_last()) + "\n--> "@ + report_text(ds.last()) + "\n"@
    }
}

/// The report of every room and every device, in order.
pub open spec fn home_report(rooms: Seq<RoomView>) -> Seq<char>
    decreases rooms.len(),
{
    if rooms.len() == 0 {
        Seq::empty()
    } else {
        home_report(rooms.drop_last()) + "\n"@ + rooms.last().name + devices_report(
            rooms.last().devices,
        )
    }
}

/// `s` without any element equal to `x`.
pub open spec fn without(s: Seq<Seq<char>>, x: Seq<char>) -> Seq<Seq<char>>
    decreases s.len(),
{
    if s.len() == 0 {
        s
    } else if s.last() == x {
        without(s.drop_last(), x)
    } else {
        without(s.drop_last(), x).push(s.last())
    }
}

/// `s` with repeated elements left out after their first appearance.
pub open spec fn distinct(s: Seq<Seq<char>>) -> Seq<Seq<char>>
    decreases s.len(),
{
    if s.len() == 0 {
        s
    } else if distinct(s.drop_last()).contains(s.last()) {
        distinct(s.drop_last())
    } else {
        distinct(s.drop_last()).push(s.last())
    }
}

/// One device's step of a filtered report: the text so far and the filter
/// keys not yet met.
pub open spec fn filtered_device_step(
    acc: (Seq<char>, Seq<Seq<char>>),
    room: Seq<char>,
    d: DeviceView,
) -> (Seq<char>, Seq<Seq<char>>) {
    let p = path_of(room, d.name);
    (
        if acc.1.contains(p) {
            acc.0 + "\n--> "@ + report_text(d) + "\n"@
        } else {
            acc.0
        },
        without(acc.1, p),
    )
}

pub open spec fn filtered_devices(
    acc: (Seq<char>, Seq<Seq<char>>),
    room: Seq<char>,
    ds: Seq<DeviceView>,
) -> (Seq<char>, Seq<Seq<char>>)
    decreases ds.len(),
{
    if ds.len() == 0 {
        acc
    } else {
        filtered_device_step(filtered_devices(acc, room, ds.drop_last()), room, ds.last())
    }
}

pub open spec fn filtered_rooms(acc: (Seq<char>, Seq<Seq<char>>), rooms: Seq<RoomView>) -> (
    Seq<char>,
    Seq<Seq<char>>,
)
    decreases rooms.len(),
{
    if rooms.len() == 0 {
        acc
    } else {
        let a = filtered_rooms(acc, rooms.drop_last());
        let r = rooms.last();
        filtered_devices((a.0 + "\n"@ + r.name, a.1), r.name, r.devices)
    }
}

/// The line that marks a filter key no device of the home matched.
pub open spec fn missing_line(p: Seq<char>) -> Seq<char> {
    "\x1b[41m"@ + p + "\x1b[0m не найдено\n"@
}

pub open spec fn missing_lines(ps: Seq<Seq<char>>) -> Seq<char>
    decreases ps.len(),
{
    if ps.len() == 0 {
        Seq::empty()
    } else {
        missing_lines(ps.drop_last()) + missing_line(ps.last())
    }
}

/// The separator between the matched and the unmatched part of a filtered report.
pub open spec fn report_separator() -> Seq<char> {
    "\n\n==============\n\n"@
}

/// The report restricted to the devices whose keys are in `paths`, then a
/// line for each key that no device matched.
pub open spec fn filtered_report(rooms: Seq<RoomView>, paths: Seq<Seq<char>>) -> Seq<char> {
    let a = filtered_rooms((Seq::empty(), paths), rooms);
    a.0 + report_separator() + missing_lines(a.1)
}

/// The views of a list of devices.
pub open spec fn device_views(v: Seq<SmartDevice>) -> Seq<DeviceView> {
    v.map_values(|d: SmartDevice| d@)
}

/// Whether room `room` holds a device called `name`.
pub open spec fn has_device_at(h: HomeView, room: Seq<char>, name: Seq<char>) -> bool {
    has_room(h.rooms, room) && has_device(h.rooms[room_pos(h.rooms, room)].devices, name)
}

/// The device called `name` in room `room` (meaningful where it exists).
pub open spec fn device_at(h: HomeView, room: Seq<char>, name: Seq<char>) -> DeviceView {
    let ds = h.rooms[room_pos(h.rooms, room)].devices;
    ds[device_pos(ds, name)]
}

/// The home with the devices of room `room` replaced by `ds`.
pub open spec fn with_devices(h: HomeView, room: Seq<char>, ds: Seq<DeviceView>) -> HomeView {
    let p = room_pos(h.rooms, room);
    HomeView { rooms: h.rooms.update(p, RoomView { name: h.rooms[p].name, devices: ds }), ..h }
}

/// The home with a room called `name` added last, holding `ds`.
pub open spec fn room_added(h: HomeView, name: Seq<char>, ds: Seq<DeviceView>) -> HomeView {
    HomeView { rooms: h.rooms.push(RoomView { name, devices: collect_devices(ds) }), ..h }
}

/// The home without room `name`.
pub open spec fn room_removed(h: HomeView, name: Seq<char>) -> HomeView {
    HomeView { rooms: h.rooms.remove(room_pos(h.rooms, name)), ..h }
}

/// The home with `d` added last to room `room`.
pub open spec fn device_added(h: HomeView, room: Seq<char>, d: DeviceView) -> HomeView {
    with_devices(h, room, h.rooms[room_pos(h.rooms, room)].devices.push(d))
}

/// The home without device `name` of room `room`.
pub open spec fn device_removed(h: HomeView, room: Seq<char>, name: Seq<char>) -> HomeView {
    let ds = h.rooms[room_pos(h.rooms, room)].devices;
    with_devices(h, room, ds.remove(device_pos(ds, name)))
}

/// The home with device `name` of room `room` replaced by `d`.
pub open spec fn device_replaced(h: HomeView, room: Seq<char>, name: Seq<char>, d: DeviceView) -> HomeView {
    let ds = h.rooms[room_pos(h.rooms, room)].devices;
    with_devices(h, room, ds.update(device_pos(ds, name), d))
}

/// What can go wrong with an operation on the home.
pub enum SmartHomeError {
    RoomNonExist(String),
    RoomSameNameExistInHome(String),
    NoDeviceInRoom { name: String, room: String },
    DeviceSameNameExistInRoom(String),
}

/// How `Debug` shows a string: quoted, with special characters escaped.
pub uninterp spec fn debug_text(s: Seq<char>) -> Seq<char>;

/// Relies on `<str as Debug>::fmt`, which quotes and escapes `s`.
#[verifier::external_body]
fn debug_quoted(s: &str) -> (r: String)
    ensures
        r@ == debug_text(s@),
{
    format!("{:?}", s)
}

impl SmartHomeError {
    /// The message of the error.
    pub open spec fn text_view(&self) -> Seq<char> {
        match self {
            SmartHomeError::RoomNonExist(r) => "room: "@ + r@ + " not exist"@,
            SmartHomeError::RoomSameNameExistInHome(h) => "room with same name exist in home: "@
                + h@,
            SmartHomeError::NoDeviceInRoom { name, room } => "device: "@ + debug_text(name@)
                + " not exist in room: "@ + debug_text(room@),
            SmartHomeError::DeviceSameNameExistInRoom(r) => "device with same name exist in room: "@
                + r@,
        }
    }

    pub fn to_text(&self) -> (r: String)
        ensures
            r@ == self.text_view(),
    {
        match self {
            SmartHomeError::RoomNonExist(r) => {
                let mut s = String::from_str("room: ");
                s.append(r.as_str());
                s.append(" not exist");
                s
            },
            SmartHomeError::RoomSameNameExistInHome(h) => {
                let mut s = String::from_str("room with same name exist in home: ");
                s.append(h.as_str());
                s
            },
            SmartHomeError::NoDeviceInRoom { name, room } => {
                let mut s = String::from_str("device: ");
                s.append(debug_quoted(name.as_str()).as_str());
                s.append(" not exist in room: ");
                s.append(debug_quoted(room.as_str()).as_str());
                s
            },
            SmartHomeError::DeviceSameNameExistInRoom(r) => {
                let mut s = String::from_str("device with same name exist in room: ");
                s.append(r.as_str());
                s
            },
        }
    }
}

pub open spec fn is_room_missing(e: SmartHomeError, room: Seq<char>) -> bool {
    e is RoomNonExist && e->RoomNonExist_0@ == room
}

pub open spec fn is_device_missing(e: SmartHomeError, room: Seq<char>, name: Seq<char>) -> bool {
    e is NoDeviceInRoom && e->NoDeviceInRoom_name@ == name && e->NoDeviceInRoom_room@ == room
}

/// A room and the devices in it.
pub struct Room {
    name: String,
    devices: Vec<SmartDevice>,
}

impl View for Room {
    type V = RoomView;

    closed spec fn view(&self) -> RoomView {
        RoomView { name: self.name@, devices: device_views(self.devices@) }
    }
}

/// A registry of rooms, each holding named devices.
pub struct Home {
    pub name: String,
    rooms: Vec<Room>,
}

impl View for Home {
    type V = HomeView;

    closed spec fn view(&self) -> HomeView {
        HomeView { name: self.name@, rooms: self.rooms@.map_values(|r: Room| r@) }
    }
}

proof fn lemma_room_pos(rooms: Seq<RoomView>, i: int)
    requires
        wf_rooms(rooms),
        0 <= i < rooms.len(),
    ensures
        has_room(rooms, rooms[i].name),
        room_pos(rooms, rooms[i].name) == i,
{
    assert(rooms[i].name == rooms[i].name);
}

proof fn lemma_device_pos(devices: Seq<DeviceView>, i: int)
    requires
        unique_devices(devices),
        0 <= i < devices.len(),
    ensures
        has_device(devices, devices[i].name),
        device_pos(devices, devices[i].name) == i,
{
    assert(devices[i].name == devices[i].name);
}

proof fn lemma_upsert_unique(devices: Seq<DeviceView>, d: DeviceView)
    requires
        unique_devices(devices),
    ensures
        unique_devices(upsert(devices, d)),
{
    if has_device(devices, d.name) {
        let p = device_pos(devices, d.name);
        assert(devices[p].name == d.name);
    }
}

/// The position of the device called `name` in `devs`.
fn position_of(devs: &Vec<SmartDevice>, name: &str) -> (r: Option<usize>)
    requires
        unique_devices(device_views(devs@)),
    ensures
        r is None ==> !has_device(device_views(devs@), name@),
        r matches Some(j) ==> j < devs@.len() && devs@[j as int]@.name == name@ && device_pos(
            device_views(devs@),
            name@,
        ) == j,
{
    let ghost ds = device_views(devs@);
    let mut j: usize = 0;
    while j < devs.len()
        invariant
            j <= devs@.len(),
            ds == device_views(devs@),
            unique_devices(ds),
            forall|k: int| 0 <= k < j ==> #[trigger] ds[k].name != name@,
        decreases devs@.len() - j,
    {
        if devs[j].has_name(name) {
            proof {
                lemma_device_pos(ds, j as int);
            }
            return Some(j);
        }
        j = j + 1;
    }
    None
}

/// Puts `d` in place of the device of the same name, or adds it last.
fn upsert_device(devs: &mut Vec<SmartDevice>, d: SmartDevice)
    requires
        unique_devices(device_views(old(devs)@)),
    ensures
        device_views(final(devs)@) == upsert(device_views(old(devs)@), d@),
        unique_devices(device_views(final(devs)@)),
{
    let name = d.get_name();
    proof {
        lemma_upsert_unique(device_views(devs@), d@);
    }
    match position_of(devs, name.as_str()) {
        Some(j) => {
            let ghost dv = d@;
            assert(device_views(old(devs)@)[j as int].name == dv.name);
            devs.set(j, d);
            assert(device_views(devs@) =~= upsert(device_views(old(devs)@), dv));
        },
        None => {
            let ghost dv = d@;
            devs.push(d);
            assert(device_views(devs@) =~= upsert(device_views(old(devs)@), dv));
        },
    }
}

impl Home {
    /// Room names are unique, and device names unique in each room.
    pub open spec fn wf(&self) -> bool {
        wf_rooms(self@.rooms)
    }

    /// An empty home called `name`.
    pub fn new(name: String) -> (r: Self)
        ensures
            r@ == (HomeView { name: name@, rooms: Seq::empty() }),
            r.wf(),
    {
        let r = Home { name, rooms: Vec::new() };
        assert(r@.rooms =~= Seq::<RoomView>::empty());
        r
    }

    /// The key of a device in a provider's filter.
    pub fn device_path(r: &str, d: &str) -> (s: String)
        ensures
            s@ == path_of(r@, d@),
    {
        let mut s = String::from_str(r);
        s.append("=>");
        s.append(d);
        s
    }

    fn find_room(&self, name: &str) -> (r: Option<usize>)
        requires
            self.wf(),
        ensures
            r is None ==> !has_room(self@.rooms, name@),
            r matches Some(i) ==> i < self@.rooms.len() && self@.rooms[i as int].name == name@
                && room_pos(self@.rooms, name@) == i,
    {
        let key = String::from_str(name);
        let mut i: usize = 0;
        while i < self.rooms.len()
            invariant
                i <= self.rooms@.len(),
                self.wf(),
                key@ == name@,
                forall|k: int| 0 <= k < i ==> #[trigger] self@.rooms[k].name != name@,
            decreases self.rooms@.len() - i,
        {
            if self.rooms[i].name == key {
                proof {
                    lemma_room_pos(self@.rooms, i as int);
                }
                return Some(i);
            }
            i = i + 1;
        }
        None
    }

    fn find_device(&self, ri: usize, name: &str) -> (r: Option<usize>)
        requires
            self.wf(),
            ri < self@.rooms.len(),
        ensures
            r is None ==> !has_device(self@.rooms[ri as int].devices, name@),
            r matches Some(j) ==> j < self@.rooms[ri as int].devices.len()
                && self@.rooms[ri as int].devices[j as int].name == name@ && device_pos(
                self@.rooms[ri as int].devices,
                name@,
            ) == j,
    {
        assert(self@.rooms[ri as int] == self.rooms@[ri as int]@);
        position_of(&self.rooms[ri].devices, name)
    }

    /// Succeeds where the room exists.
    pub fn room(&self, name: &str) -> (r: core::result::Result<(), SmartHomeError>)
        requires
            self.wf(),
        ensures
            r is Ok <==> has_room(self@.rooms, name@),
            r matches Err(e) ==> is_room_missing(e, name@),
    {
        match self.find_room(name) {
            Some(_) => Ok(()),
            None => Err(SmartHomeError::RoomNonExist(String::from_str(name))),
        }
    }

    /// The device called `name` in room `room`.
    pub fn get_device(&self, room: &str, name: &str) -> (r: core::result::Result<
        &SmartDevice,
        SmartHomeError,
    >)
        requires
            self.wf(),
        ensures
            !has_room(self@.rooms, room@) ==> (r matches Err(e) && is_room_missing(e, room@)),
            has_room(self@.rooms, room@) && !has_device(
                self@.rooms[room_pos(self@.rooms, room@)].devices,
                name@,
            ) ==> (r matches Err(e) && is_device_missing(e, room@, name@)),
            has_room(self@.rooms, room@) && has_device(
                self@.rooms[room_pos(self@.rooms, room@)].devices,
                name@,
            ) ==> (r matches Ok(d) && d@ == self@.rooms[room_pos(self@.rooms, room@)].devices[
                device_pos(self@.rooms[room_pos(self@.rooms, room@)].devices, name@)]),
    {
        match self.find_room(room) {
            None => Err(SmartHomeError::RoomNonExist(String::from_str(room))),
            Some(i) => match self.find_device(i, name) {
                None => Err(
                    SmartHomeError::NoDeviceInRoom {
                        name: String::from_str(name),
                        room: String::from_str(room),
                    },
                ),
                Some(j) => {
                    assert(self.rooms@[i as int]@.devices[j as int] == self.rooms@[i as int].devices@[j as int]@);
                    Ok(&self.rooms[i].devices[j])
                },
            },
        }
    }

    /// The names of the rooms, in order.
    pub fn get_rooms(&self) -> (r: Vec<String>)
        ensures
            texts(r@) == room_names(self@.rooms),
    {
        let mut out: Vec<String> = Vec::new();
        let mut i: usize = 0;
        while i < self.rooms.len()
            invariant
                i <= self.rooms@.len(),
                out@.len() == i,
                forall|k: int| 0 <= k < i ==> #[trigger] out@[k]@ == self@.rooms[k].name,
            decreases self.rooms@.len() - i,
        {
            out.push(self.rooms[i].name.clone());
            proof {
                assert(self@.rooms[i as int].name == self.rooms@[i as int].name@);
            }
            i = i + 1;
        }
        assert(texts(out@) =~= room_names(self@.rooms));
        out
    }

    /// The names of the devices in room `room`, in order.
    pub fn get_devices(&self, room: &str) -> (r: core::result::Result<Vec<String>, SmartHomeError>)
        requires
            self.wf(),
        ensures
            r is Ok <==> has_room(self@.rooms, room@),
            r matches Ok(v) ==> texts(v@) == device_names(
                self@.rooms[room_pos(self@.rooms, room@)].devices,
            ),
            r matches Err(e) ==> is_room_missing(e, room@),
    {
        match self.find_room(room) {
            None => Err(SmartHomeError::RoomNonExist(String::from_str(room))),
            Some(i) => {
                let rm = &self.rooms[i];
                let ghost ds = self@.rooms[i as int].devices;
                assert(ds == rm@.devices);
                let mut out: Vec<String> = Vec::new();
                let mut j: usize = 0;
                while j < rm.devices.len()
                    invariant
                        j <= rm.devices@.len(),
                        ds == rm@.devices,
                        out@.len() == j,
                        forall|k: int| 0 <= k < j ==> #[trigger] out@[k]@ == ds[k].name,
                    decreases rm.devices@.len() - j,
                {
                    out.push(rm.devices[j].get_name());
                    proof {
                        assert(ds[j as int] == rm.devices@[j as int]@);
                    }
                    j = j + 1;
                }
                assert(texts(out@) =~= device_names(ds));
                Ok(out)
            },
        }
    }

    proof fn lemma_room_view(&self, i: int)
        requires
            0 <= i < self.rooms@.len(),
        ensures
            self@.rooms[i] == self.rooms@[i]@,
            self@.rooms[i].devices == device_views(self.rooms@[i].devices@),
            self@.rooms.len() == self.rooms@.len(),
    {
    }

    /// Adds a room called `name` holding `devices`; where two of them share a
    /// name, the later one stands in the place of the first.
    pub fn add_room(&mut self, name: String, devices: Vec<SmartDevice>) -> (r: core::result::Result<
        (),
        SmartHomeError,
    >)
        requires
            old(self).wf(),
        ensures
            final(self).wf(),
            r is Ok <==> !has_room(old(self)@.rooms, name@),
            r is Ok ==> final(self)@ == room_added(old(self)@, name@, device_views(devices@)),
            r matches Err(e) ==> e is RoomSameNameExistInHome && e->RoomSameNameExistInHome_0@
                == old(self)@.name && final(self)@ == old(self)@,
    {
        if self.find_room(name.as_str()).is_some() {
            return Err(SmartHomeError::RoomSameNameExistInHome(self.name.clone()));
        }
        let ghost input = device_views(devices@);
        assert(input.len() == devices.len());
        let mut rest = devices;
        let mut devs: Vec<SmartDevice> = Vec::new();
        let mut k: usize = 0;
        assert(device_views(devs@) =~= collect_devices(input.take(0)));
        while rest.len() > 0
            invariant
                input.len() == k + device_views(rest@).len(),
                input.len() <= usize::MAX,
                device_views(rest@) == input.skip(k as int),
                device_views(devs@) == collect_devices(input.take(k as int)),
                unique_devices(device_views(devs@)),
            decreases rest@.len(),
        {
            let ghost rest_old = rest@;
            let d = rest.remove(0);
            proof {
                assert(device_views(rest_old)[0] == rest_old[0]@);
                assert(input.skip(k as int)[0] == input[k as int]);
                assert(d@ == input[k as int]);
                assert(input.take(k + 1).drop_last() =~= input.take(k as int));
            }
            upsert_device(&mut devs, d);
            k = k + 1;
            proof {
                assert forall|a: int| 0 <= a < device_views(rest@).len() implies #[trigger] device_views(rest@)[a]
                    == input.skip(k as int)[a] by {
                    assert(rest@[a] == rest_old[a + 1]);
                    assert(device_views(rest_old)[a + 1] == input.skip(k - 1)[a + 1]);
                }
                assert(device_views(rest@) =~= input.skip(k as int));
            }
        }
        assert(input.take(k as int) =~= input);
        let ghost old_h = self@;
        self.rooms.push(Room { name, devices: devs });
        proof {
            assert(self@.rooms =~= room_added(old_h, self.rooms@.last().name@, input).rooms);
            assert forall|i: int, j: int|
                0 <= i < self@.rooms.len() && 0 <= j < self@.rooms.len() && i != j implies #[trigger] self@.rooms[i].name
                    != #[trigger] self@.rooms[j].name by {
                if i == self@.rooms.len() - 1 {
                    assert(old_h.rooms[j].name == self@.rooms[j].name);
                } else if j == self@.rooms.len() - 1 {
                    assert(old_h.rooms[i].name == self@.rooms[i].name);
                }
            }
        }
        Ok(())
    }

    /// Removes room `name` with its devices.
    pub fn del_room(&mut self, name: &str) -> (r: core::result::Result<(), SmartHomeError>)
        requires
            old(self).wf(),
        ensures
            final(self).wf(),
            r is Ok <==> has_room(old(self)@.rooms, name@),
            r is Ok ==> final(self)@ == room_removed(old(self)@, name@),
            r matches Err(e) ==> is_room_missing(e, name@) && final(self)@ == old(self)@,
    {
        match self.find_room(name) {
            None => Err(SmartHomeError::RoomNonExist(String::from_str(name))),
            Some(i) => {
                let ghost old_h = self@;
                let _ = self.rooms.remove(i);
                proof {
                    assert(self@.rooms =~= old_h.rooms.remove(i as int));
                    assert forall|a: int, b: int|
                        0 <= a < self@.rooms.len() && 0 <= b < self@.rooms.len() && a != b implies #[trigger] self@.rooms[a].name
                            != #[trigger] self@.rooms[b].name by {
                        let oa = if a < i { a } else { a + 1 };
                        let ob = if b < i { b } else { b + 1 };
                        assert(old_h.rooms[oa].name == self@.rooms[a].name);
                        assert(old_h.rooms[ob].name == self@.rooms[b].name);
                    }
                    assert forall|a: int| 0 <= a < self@.rooms.len() implies unique_devices(
                        #[trigger] self@.rooms[a].devices,
                    ) by {
                        let oa = if a < i { a } else { a + 1 };
                        assert(old_h.rooms[oa] == self@.rooms[a]);
                    }
                }
                Ok(())
            },
        }
    }

    /// Adds `device` last to room `room`.
    pub fn add_device(&mut self, room: &str, device: SmartDevice) -> (r: core::result::Result<
        (),
        SmartHomeError,
    >)
        requires
            old(self).wf(),
        ensures
            final(self).wf(),
            !has_room(old(self)@.rooms, room@) ==> (r matches Err(e) && is_room_missing(e, room@))
                && final(self)@ == old(self)@,
            has_device_at(old(self)@, room@, device@.name) ==> (r matches Err(e)
                && e is DeviceSameNameExistInRoom && e->DeviceSameNameExistInRoom_0@ == room@)
                && final(self)@ == old(self)@,
            has_room(old(self)@.rooms, room@) && !has_device_at(old(self)@, room@, device@.name)
                ==> r is Ok && final(self)@ == device_added(old(self)@, room@, device@),
    {
        match self.find_room(room) {
            None => Err(SmartHomeError::RoomNonExist(String::from_str(room))),
            Some(i) => {
                let name = device.get_name();
                match self.find_device(i, name.as_str()) {
                    Some(_) => Err(SmartHomeError::DeviceSameNameExistInRoom(String::from_str(room))),
                    None => {
                        let ghost old_h = self@;
                        let ghost dv = device@;
                        proof { self.lemma_room_view(i as int); }
                        self.rooms[i].devices.push(device);
                        proof {
                            assert(device_views(self.rooms@[i as int].devices@) =~= old_h.rooms[i as int].devices.push(dv));
                            assert(self@.rooms =~= device_added(old_h, room@, dv).rooms);
                            let ds = self@.rooms[i as int].devices;
                            assert forall|a: int, b: int|
                                0 <= a < ds.len() && 0 <= b < ds.len() && a != b implies #[trigger] ds[a].name
                                    != #[trigger] ds[b].name by {
                                if a < ds.len() - 1 && b < ds.len() - 1 {
                                    assert(old_h.rooms[i as int].devices[a] == ds[a]);
                                    assert(old_h.rooms[i as int].devices[b] == ds[b]);
                                } else if a < ds.len() - 1 {
                                    assert(old_h.rooms[i as int].devices[a] == ds[a]);
                                } else {
                                    assert(old_h.rooms[i as int].devices[b] == ds[b]);
                                }
                            }
                            assert forall|a: int| 0 <= a < self@.rooms.len() implies unique_devices(
                                #[trigger] self@.rooms[a].devices,
                            ) by {
                                if a != i {
                                    assert(old_h.rooms[a] == self@.rooms[a]);
                                }
                            }
                            assert forall|a: int, b: int|
                                0 <= a < self@.rooms.len() && 0 <= b < self@.rooms.len() && a != b implies #[trigger] self@.rooms[a].name
                                    != #[trigger] self@.rooms[b].name by {
                                assert(old_h.rooms[a].name == self@.rooms[a].name);
                                assert(old_h.rooms[b].name == self@.rooms[b].name);
                            }
                        }
                        Ok(())
                    },
                }
            },
        }
    }

    /// Removes device `name` from room `room`.
    pub fn del_device(&mut self, room: &str, name: &str) -> (r: core::result::Result<
        (),
        SmartHomeError,
    >)
        requires
            old(self).wf(),
        ensures
            final(self).wf(),
            !has_room(old(self)@.rooms, room@) ==> (r matches Err(e) && is_room_missing(e, room@))
                && final(self)@ == old(self)@,
            has_room(old(self)@.rooms, room@) && !has_device_at(old(self)@, room@, name@) ==> (r matches Err(e)
                && is_device_missing(e, room@, name@)) && final(self)@ == old(self)@,
            has_device_at(old(self)@, room@, name@) ==> r is Ok && final(self)@ == device_removed(
                old(self)@,
                room@,
                name@,
            ),
    {
        match self.find_room(room) {
            None => Err(SmartHomeError::RoomNonExist(String::from_str(room))),
            Some(i) => match self.find_device(i, name) {
                None => Err(
                    SmartHomeError::NoDeviceInRoom {
                        name: String::from_str(name),
                        room: String::from_str(room),
                    },
                ),
                Some(j) => {
                    let ghost old_h = self@;
                    proof { self.lemma_room_view(i as int); }
                    let _ = self.rooms[i].devices.remove(j);
                    proof {
                        let ods = old_h.rooms[i as int].devices;
                        assert(device_views(self.rooms@[i as int].devices@) =~= ods.remove(j as int));
                        assert(self@.rooms =~= device_removed(old_h, room@, name@).rooms);
                        let ds = self@.rooms[i as int].devices;
                        assert forall|a: int, b: int|
                            0 <= a < ds.len() && 0 <= b < ds.len() && a != b implies #[trigger] ds[a].name
                                != #[trigger] ds[b].name by {
                            let oa = if a < j { a } else { a + 1 };
                            let ob = if b < j { b } else { b + 1 };
                            assert(ods[oa] == ds[a]);
                            assert(ods[ob] == ds[b]);
                        }
                        assert forall|a: int| 0 <= a < self@.rooms.len() implies unique_devices(
                            #[trigger] self@.rooms[a].devices,
                        ) by {
                            if a != i {
                                assert(old_h.rooms[a] == self@.rooms[a]);
                            }
                        }
                        assert forall|a: int, b: int|
                            0 <= a < self@.rooms.len() && 0 <= b < self@.rooms.len() && a != b implies #[trigger] self@.rooms[a].name
                                != #[trigger] self@.rooms[b].name by {
                            assert(old_h.rooms[a].name == self@.rooms[a].name);
                            assert(old_h.rooms[b].name == self@.rooms[b].name);
                        }
                    }
                    Ok(())
                },
            },
        }
    }

    /// Switches device `name` of room `room` to `to` (see `SmartDevice::switch`).
    pub fn switch_device(&mut self, room: &str, name: &str, to: &str) -> (r: core::result::Result<
        String,
        SmartHomeError,
    >)
        requires
            old(self).wf(),
        ensures
            final(self).wf(),
            !has_room(old(self)@.rooms, room@) ==> (r matches Err(e) && is_room_missing(e, room@))
                && final(self)@ == old(self)@,
            has_room(old(self)@.rooms, room@) && !has_device_at(old(self)@, room@, name@) ==> (r matches Err(e)
                && is_device_missing(e, room@, name@)) && final(self)@ == old(self)@,
            has_device_at(old(self)@, room@, name@) ==> (r matches Ok(t) && t@ == switch_outcome(
                device_at(old(self)@, room@, name@),
                to@,
            ).1) && final(self)@ == device_replaced(
                old(self)@,
                room@,
                name@,
                switch_outcome(device_at(old(self)@, room@, name@), to@).0,
            ),
    {
        match self.find_room(room) {
            None => Err(SmartHomeError::RoomNonExist(String::from_str(room))),
            Some(i) => match self.find_device(i, name) {
                None => Err(
                    SmartHomeError::NoDeviceInRoom {
                        name: String::from_str(name),
                        room: String::from_str(room),
                    },
                ),
                Some(j) => {
                    let ghost old_h = self@;
                    proof { self.lemma_room_view(i as int); }
                    let t = self.rooms[i].devices[j].switch(to);
                    proof {
                        let ods = old_h.rooms[i as int].devices;
                        let nd = switch_outcome(ods[j as int], to@).0;
                        assert(device_views(self.rooms@[i as int].devices@) =~= ods.update(j as int, nd));
                        assert(self@.rooms =~= device_replaced(old_h, room@, name@, nd).rooms);
                        let ds = self@.rooms[i as int].devices;
                        assert forall|a: int, b: int|
                            0 <= a < ds.len() && 0 <= b < ds.len() && a != b implies #[trigger] ds[a].name
                                != #[trigger] ds[b].name by {
                            assert(ods[a].name == ds[a].name);
                            assert(ods[b].name == ds[b].name);
                        }
                        assert forall|a: int| 0 <= a < self@.rooms.len() implies unique_devices(
                            #[trigger] self@.rooms[a].devices,
                        ) by {
                            if a != i {
                                assert(old_h.rooms[a] == self@.rooms[a]);
                            }
                        }
                        assert forall|a: int, b: int|
                            0 <= a < self@.rooms.len() && 0 <= b < self@.rooms.len() && a != b implies #[trigger] self@.rooms[a].name
                                != #[trigger] self@.rooms[b].name by {
                            assert(old_h.rooms[a].name == self@.rooms[a].name);
                            assert(old_h.rooms[b].name == self@.rooms[b].name);
                        }
                    }
                    Ok(t)
                },
            },
        }
    }

    /// Every room with the report of each of its devices.
    pub fn create_report(&self) -> (r: String)
        ensures
            r@ == home_report(self@.rooms),
    {
        let mut report = String::new();
        let mut i: usize = 0;
        while i < self.rooms.len()
            invariant
                i <= self.rooms@.len(),
                report@ == home_report(self@.rooms.take(i as int)),
            decreases self.rooms@.len() - i,
        {
            proof { self.lemma_room_view(i as int); }
            let room = &self.rooms[i];
            let ghost ds = self@.rooms[i as int].devices;
            report.append("\n");
            report.append(room.name.as_str());
            let ghost head = report@;
            let mut j: usize = 0;
            assert(ds.take(0) =~= Seq::<DeviceView>::empty());
            while j < room.devices.len()
                invariant
                    j <= room.devices@.len(),
                    ds == device_views(room.devices@),
                    report@ == head + devices_report(ds.take(j as int)),
                decreases room.devices@.len() - j,
            {
                report.append("\n--> ");
                report.append(room.devices[j].report().as_str());
                report.append("\n");
                proof {
                    assert(ds.take(j + 1).drop_last() =~= ds.take(j as int));
                    assert(ds[j as int] == room.devices@[j as int]@);
                    assert(report@ =~= head + devices_report(ds.take(j + 1)));
                }
                j = j + 1;
            }
            proof {
                assert(ds.take(j as int) =~= ds);
                let rs = self@.rooms.take(i + 1);
                assert(rs.drop_last() =~= self@.rooms.take(i as int));
                assert(report@ =~= home_report(rs));
            }
            i = i + 1;
        }
        assert(self@.rooms.take(i as int) =~= self@.rooms);
        report
    }
}

/// Whether `x` is one of `v`.
pub(crate) fn contains_text(v: &Vec<String>, x: &String) -> (r: bool)
    ensures
        r == texts(v@).contains(x@),
{
    let mut k: usize = 0;
    while k < v.len()
        invariant
            k <= v@.len(),
            forall|t: int| 0 <= t < k ==> #[trigger] texts(v@)[t] != x@,
        decreases v@.len() - k,
    {
        if v[k] == *x {
            assert(texts(v@)[k as int] == x@);
            return true;
        }
        k = k + 1;
    }
    false
}

/// `v` without the elements equal to `x`.
pub(crate) fn remove_text(v: Vec<String>, x: &String) -> (r: Vec<String>)
    ensures
        texts(r@) == without(texts(v@), x@),
{
    let mut out: Vec<String> = Vec::new();
    let mut k: usize = 0;
    assert(texts(v@).take(0) =~= Seq::<Seq<char>>::empty());
    while k < v.len()
        invariant
            k <= v@.len(),
            texts(out@) == without(texts(v@).take(k as int), x@),
        decreases v@.len() - k,
    {
        let ghost before = out@;
        proof {
            assert(texts(v@).take(k + 1).drop_last() =~= texts(v@).take(k as int));
            assert(texts(v@).take(k + 1).last() == v@[k as int]@);
        }
        if v[k] != *x {
            out.push(v[k].clone());
            assert(texts(out@) =~= texts(before).push(v@[k as int]@));
        }
        k = k + 1;
    }
    assert(texts(v@).take(k as int) =~= texts(v@));
    out
}

impl Home {
    /// The report of the devices whose keys ("room=>device") are in `paths`,
    /// then, after a separator, a marked line for each key that no device of
    /// the home matched.
    pub fn create_filtered_report(&self, paths: Vec<String>) -> (r: String)
        ensures
            r@ == filtered_report(self@.rooms, texts(paths@)),
    {
        let ghost ps = texts(paths@);
        let mut report = String::new();
        let mut remaining = paths;
        let mut i: usize = 0;
        assert(self@.rooms.take(0) =~= Seq::<RoomView>::empty());
        while i < self.rooms.len()
            invariant
                i <= self.rooms@.len(),
                (report@, texts(remaining@)) == filtered_rooms((Seq::empty(), ps), self@.rooms.take(i as int)),
            decreases self.rooms@.len() - i,
        {
            proof { self.lemma_room_view(i as int); }
            let room = &self.rooms[i];
            let ghost ds = self@.rooms[i as int].devices;
            report.append("\n");
            report.append(room.name.as_str());
            let ghost start = (report@, texts(remaining@));
            let mut j: usize = 0;
            assert(ds.take(0) =~= Seq::<DeviceView>::empty());
            while j < room.devices.len()
                invariant
                    j <= room.devices@.len(),
                    ds == device_views(room.devices@),
                    room.name@ == self@.rooms[i as int].name,
                    (report@, texts(remaining@)) == filtered_devices(start, room.name@, ds.take(j as int)),
                decreases room.devices@.len() - j,
            {
                let dev = &room.devices[j];
                let p = Home::device_path(room.name.as_str(), dev.get_name().as_str());
                if contains_text(&remaining, &p) {
                    report.append("\n--> ");
                    report.append(dev.report().as_str());
                    report.append("\n");
                }
                remaining = remove_text(remaining, &p);
                proof {
                    assert(ds.take(j + 1).drop_last() =~= ds.take(j as int));
                    assert(ds[j as int] == room.devices@[j as int]@);
                    assert(report@ =~= filtered_devices(start, room.name@, ds.take(j + 1)).0);
                }
                j = j + 1;
            }
            proof {
                assert(ds.take(j as int) =~= ds);
                let rs = self@.rooms.take(i + 1);
                assert(rs.drop_last() =~= self@.rooms.take(i as int));
                assert(rs.last() == self@.rooms[i as int]);
            }
            i = i + 1;
        }
        assert(self@.rooms.take(i as int) =~= self@.rooms);
        report.append("\n\n==============\n\n");
        let ghost body = report@;
        let mut k: usize = 0;
        let ghost rest = texts(remaining@);
        assert(rest.take(0) =~= Seq::<Seq<char>>::empty());
        while k < remaining.len()
            invariant
                k <= remaining@.len(),
                rest == texts(remaining@),
                report@ == body + missing_lines(rest.take(k as int)),
            decreases remaining@.len() - k,
        {
            report.append("\x1b[41m");
            report.append(remaining[k].as_str());
            report.append("\x1b[0m не найдено\n");
            proof {
                assert(rest.take(k + 1).drop_last() =~= rest.take(k as int));
                assert(rest[k as int] == remaining@[k as int]@);
                assert(report@ =~= body + missing_lines(rest.take(k + 1)));
            }
            k = k + 1;
        }
        assert(rest.take(k as int) =~= rest);
        report
    }
}

/// Whether `needle` occurs in `hay` as a contiguous part.
pub open spec fn contains_part(hay: Seq<char>, needle: Seq<char>) -> bool {
    exists|i: int|
        0 <= i && i + needle.len() <= hay.len() && #[trigger] hay.subrange(i, i + needle.len())
            == needle
}

proof fn lemma_without_keeps(s: Seq<Seq<char>>, x: Seq<char>, p: Seq<char>)
    requires
        s.contains(p),
        p != x,
    ensures
        without(s, x).contains(p),
    decreases s.len(),
{
    let w = without(s, x);
    if s.last() == p {
        assert(w == without(s.drop_last(), x).push(p));
        assert(w[w.len() - 1] == p);
    } else {
        let k = choose|k: int| 0 <= k < s.len() && s[k] == p;
        assert(s.drop_last()[k] == p);
        lemma_without_keeps(s.drop_last(), x, p);
        let w0 = without(s.drop_last(), x);
        let k0 = choose|k0: int| 0 <= k0 < w0.len() && w0[k0] == p;
        if s.last() != x {
            assert(w[k0] == p);
        }
    }
}

proof fn lemma_devices_keep(acc: (Seq<char>, Seq<Seq<char>>), room: Seq<char>, ds: Seq<DeviceView>, p: Seq<char>)
    requires
        acc.1.contains(p),
        forall|j: int| 0 <= j < ds.len() ==> path_of(room, #[trigger] ds[j].name) != p,
    ensures
        filtered_devices(acc, room, ds).1.contains(p),
    decreases ds.len(),
{
    if ds.len() > 0 {
        assert forall|j: int| 0 <= j < ds.drop_last().len() implies path_of(room, #[trigger] ds.drop_last()[j].name) != p by {
            assert(ds.drop_last()[j] == ds[j]);
        }
        lemma_devices_keep(acc, room, ds.drop_last(), p);
        assert(path_of(room, ds[ds.len() - 1].name) != p);
        lemma_without_keeps(filtered_devices(acc, room, ds.drop_last()).1, path_of(room, ds.last().name), p);
    }
}

proof fn lemma_rooms_keep(acc: (Seq<char>, Seq<Seq<char>>), rooms: Seq<RoomView>, p: Seq<char>)
    requires
        acc.1.contains(p),
        forall|i: int, j: int|
            0 <= i < rooms.len() && 0 <= j < rooms[i].devices.len() ==> path_of(
                rooms[i].name,
                #[trigger] rooms[i].devices[j].name,
            ) != p,
    ensures
        filtered_rooms(acc, rooms).1.contains(p),
    decreases rooms.len(),
{
    if rooms.len() > 0 {
        let rs = rooms.drop_last();
        assert forall|i: int, j: int|
            0 <= i < rs.len() && 0 <= j < rs[i].devices.len() implies path_of(
                rs[i].name,
                #[trigger] rs[i].devices[j].name,
            ) != p by {
            assert(rs[i] == rooms[i]);
        }
        lemma_rooms_keep(acc, rs, p);
        let a = filtered_rooms(acc, rs);
        let r = rooms.last();
        assert(r == rooms[rooms.len() - 1]);
        assert forall|j: int| 0 <= j < r.devices.len() implies path_of(r.name, #[trigger] r.devices[j].name) != p by {
            assert(path_of(rooms[rooms.len() - 1].name, rooms[rooms.len() - 1].devices[j].name) != p);
        }
        lemma_devices_keep((a.0 + "\n"@ + r.name, a.1), r.name, r.devices, p);
    }
}

proof fn lemma_missing_line_present(ps: Seq<Seq<char>>, p: Seq<char>)
    requires
        ps.contains(p),
    ensures
        contains_part(missing_lines(ps), missing_line(p)),
    decreases ps.len(),
{
    let m = missing_lines(ps);
    let line = missing_line(p);
    let pre = missing_lines(ps.drop_last());
    if ps.last() == p {
        let i = pre.len() as int;
        assert(m.subrange(i, i + line.len()) =~= line);
    } else {
        let k = choose|k: int| 0 <= k < ps.len() && ps[k] == p;
        assert(ps.drop_last()[k] == p);
        lemma_missing_line_present(ps.drop_last(), p);
        let i = choose|i: int|
            0 <= i && i + line.len() <= pre.len() && #[trigger] pre.subrange(i, i + line.len()) == line;
        assert(m.subrange(i, i + line.len()) =~= pre.subrange(i, i + line.len()));
    }
}

/// A key of the filter that names no device of the home gets its marked
/// "not found" line in the filtered report; since no device matches it, no
/// device report is added for it.
pub proof fn law_unmatched_key_reported(rooms: Seq<RoomView>, paths: Seq<Seq<char>>, p: Seq<char>)
    requires
        paths.contains(p),
        forall|i: int, j: int|
            0 <= i < rooms.len() && 0 <= j < rooms[i].devices.len() ==> path_of(
                rooms[i].name,
                #[trigger] rooms[i].devices[j].name,
            ) != p,
    ensures
        contains_part(filtered_report(rooms, paths), missing_line(p)),
{
    lemma_rooms_keep((Seq::empty(), paths), rooms, p);
    let a = filtered_rooms((Seq::empty(), paths), rooms);
    lemma_missing_line_present(a.1, p);
    let line = missing_line(p);
    let ml = missing_lines(a.1);
    let i = choose|i: int|
        0 <= i && i + line.len() <= ml.len() && #[trigger] ml.subrange(i, i + line.len()) == line;
    let head = a.0 + report_separator();
    let r = filtered_report(rooms, paths);
    assert(r == head + ml);
    let j = head.len() + i;
    assert(r.subrange(j, j + line.len()) =~= ml.subrange(i, i + line.len()));
}

proof fn lemma_without_contains(s: Seq<Seq<char>>, p: Seq<char>, x: Seq<char>)
    requires
        x != p,
    ensures
        without(s, p).contains(x) <==> s.contains(x),
    decreases s.len(),
{
    if s.len() > 0 {
        lemma_without_contains(s.drop_last(), p, x);
        let w0 = without(s.drop_last(), p);
        if s.contains(x) {
            let k = choose|k: int| 0 <= k < s.len() && s[k] == x;
            if k < s.len() - 1 {
                assert(s.drop_last()[k] == x);
                let k0 = choose|k0: int| 0 <= k0 < w0.len() && w0[k0] == x;
                if s.last() != p {
                    assert(without(s, p)[k0] == x);
                }
            } else {
                assert(without(s, p) == w0.push(x));
                assert(without(s, p)[w0.len() as int] == x);
            }
        }
        if without(s, p).contains(x) {
            let k = choose|k: int| 0 <= k < without(s, p).len() && without(s, p)[k] == x;
            if s.last() == p {
                assert(w0[k] == x);
            } else if k < w0.len() {
                assert(w0[k] == x);
            }
            if w0.contains(x) {
                let j = choose|j: int| 0 <= j < s.drop_last().len() && s.drop_last()[j] == x;
                assert(s[j] == x);
            } else {
                assert(s[s.len() - 1] == x);
            }
        }
    }
}

proof fn lemma_without_commute(s: Seq<Seq<char>>, a: Seq<char>, b: Seq<char>)
    ensures
        without(without(s, a), b) == without(without(s, b), a),
    decreases s.len(),
{
    if s.len() > 0 {
        lemma_without_commute(s.drop_last(), a, b);
        let wa = without(s.drop_last(), a);
        let wb = without(s.drop_last(), b);
        if s.last() != a {
            assert(without(s, a).drop_last() =~= wa);
        }
        if s.last() != b {
            assert(without(s, b).drop_last() =~= wb);
        }
    }
}

proof fn lemma_devices_ignore(
    t: Seq<char>,
    s: Seq<Seq<char>>,
    room: Seq<char>,
    ds: Seq<DeviceView>,
    p: Seq<char>,
)
    requires
        forall|j: int| 0 <= j < ds.len() ==> path_of(room, #[trigger] ds[j].name) != p,
    ensures
        filtered_devices((t, without(s, p)), room, ds).0 == filtered_devices((t, s), room, ds).0,
        filtered_devices((t, without(s, p)), room, ds).1 == without(
            filtered_devices((t, s), room, ds).1,
            p,
        ),
    decreases ds.len(),
{
    if ds.len() > 0 {
        assert forall|j: int| 0 <= j < ds.drop_last().len() implies path_of(room, #[trigger] ds.drop_last()[j].name) != p by {
            assert(ds.drop_last()[j] == ds[j]);
        }
        lemma_devices_ignore(t, s, room, ds.drop_last(), p);
        let a = filtered_devices((t, s), room, ds.drop_last());
        let x = path_of(room, ds.last().name);
        assert(x == path_of(room, ds[ds.len() - 1].name));
        lemma_without_contains(a.1, p, x);
        lemma_without_commute(a.1, p, x);
    }
}

proof fn lemma_rooms_ignore(t: Seq<char>, s: Seq<Seq<char>>, rooms: Seq<RoomView>, p: Seq<char>)
    requires
        forall|i: int, j: int|
            0 <= i < rooms.len() && 0 <= j < rooms[i].devices.len() ==> path_of(
                rooms[i].name,
                #[trigger] rooms[i].devices[j].name,
            ) != p,
    ensures
        filtered_rooms((t, without(s, p)), rooms).0 == filtered_rooms((t, s), rooms).0,
        filtered_rooms((t, without(s, p)), rooms).1 == without(filtered_rooms((t, s), rooms).1, p),
    decreases rooms.len(),
{
    if rooms.len() > 0 {
        let rs = rooms.drop_last();
        assert forall|i: int, j: int|
            0 <= i < rs.len() && 0 <= j < rs[i].devices.len() implies path_of(
                rs[i].name,
                #[trigger] rs[i].devices[j].name,
            ) != p by {
            assert(rs[i] == rooms[i]);
        }
        lemma_rooms_ignore(t, s, rs, p);
        let a = filtered_rooms((t, s), rs);
        let r = rooms.last();
        assert(r == rooms[rooms.len() - 1]);
        assert forall|j: int| 0 <= j < r.devices.len() implies path_of(r.name, #[trigger] r.devices[j].name) != p by {
            assert(path_of(rooms[rooms.len() - 1].name, rooms[rooms.len() - 1].devices[j].name) != p);
        }
        lemma_devices_ignore(a.0 + "\n"@ + r.name, a.1, r.name, r.devices, p);
    }
}

/// A key of the filter that names no device of the home leaves the matched
/// part of the filtered report as it would be without that key.
pub proof fn law_unmatched_key_not_in_matched_part(
    rooms: Seq<RoomView>,
    paths: Seq<Seq<char>>,
    p: Seq<char>,
)
    requires
        forall|i: int, j: int|
            0 <= i < rooms.len() && 0 <= j < rooms[i].devices.len() ==> path_of(
                rooms[i].name,
                #[trigger] rooms[i].devices[j].name,
            ) != p,
    ensures
        filtered_rooms((Seq::empty(), paths), rooms).0 == filtered_rooms(
            (Seq::empty(), without(paths, p)),
            rooms,
        ).0,
{
    lemma_rooms_ignore(Seq::empty(), paths, rooms, p);
}

/// `s` without any element of `xs`.
pub open spec fn without_all(s: Seq<Seq<char>>, xs: Seq<Seq<char>>) -> Seq<Seq<char>>
    decreases xs.len(),
{
    if xs.len() == 0 {
        s
    } else {
        without(without_all(s, xs.drop_last()), xs.last())
    }
}

/// The keys of the devices `ds` of room `room`, in order.
pub open spec fn device_keys(room: Seq<char>, ds: Seq<DeviceView>) -> Seq<Seq<char>> {
    Seq::new(ds.len(), |j: int| path_of(room, ds[j].name))
}

/// The keys of every device of the home, room by room.
pub open spec fn home_keys(rooms: Seq<RoomView>) -> Seq<Seq<char>>
    decreases rooms.len(),
{
    if rooms.len() == 0 {
        Seq::empty()
    } else {
        home_keys(rooms.drop_last()) + device_keys(rooms.last().name, rooms.last().devices)
    }
}

/// The entries of the devices `ds` of room `room` in a report filtered by
/// `paths`: one for each device whose key is in `paths` and was not met
/// before (among `seen`, or earlier in `ds`).
pub open spec fn selected_devices(
    room: Seq<char>,
    ds: Seq<DeviceView>,
    paths: Seq<Seq<char>>,
    seen: Seq<Seq<char>>,
) -> Seq<char>
    decreases ds.len(),
{
    if ds.len() == 0 {
        Seq::empty()
    } else {
        let p = path_of(room, ds.last().name);
        selected_devices(room, ds.drop_last(), paths, seen) + if paths.contains(p) && !(seen
            + device_keys(room, ds.drop_last())).contains(p) {
            "\n--> "@ + report_text(ds.last()) + "\n"@
        } else {
            Seq::empty()
        }
    }
}

/// The part of a report filtered by `paths` before its separator: each room's
/// name, then an entry for each of its devices whose key is in `paths` and
/// was not met earlier in the home.
pub open spec fn selected_rooms(rooms: Seq<RoomView>, paths: Seq<Seq<char>>) -> Seq<char>
    decreases rooms.len(),
{
    if rooms.len() == 0 {
        Seq::empty()
    } else {
        let r = rooms.last();
        selected_rooms(rooms.drop_last(), paths) + "\n"@ + r.name + selected_devices(
            r.name,
            r.devices,
            paths,
            home_keys(rooms.drop_last()),
        )
    }
}

proof fn lemma_without_drops(s: Seq<Seq<char>>, p: Seq<char>)
    ensures
        !without(s, p).contains(p),
    decreases s.len(),
{
    if s.len() > 0 {
        lemma_without_drops(s.drop_last(), p);
        let w0 = without(s.drop_last(), p);
        if s.last() != p {
            assert forall|k: int| 0 <= k < without(s, p).len() implies without(s, p)[k] != p by {
                if k < w0.len() {
                    assert(without(s, p)[k] == w0[k]);
                }
            }
        }
    }
}

proof fn lemma_without_all_contains(s: Seq<Seq<char>>, xs: Seq<Seq<char>>, p: Seq<char>)
    ensures
        without_all(s, xs).contains(p) <==> s.contains(p) && !xs.contains(p),
    decreases xs.len(),
{
    if xs.len() > 0 {
        lemma_without_all_contains(s, xs.drop_last(), p);
        let w = without_all(s, xs.drop_last());
        let x = xs.last();
        if x == p {
            lemma_without_drops(w, p);
            assert(xs[xs.len() - 1] == p);
        } else {
            lemma_without_contains(w, x, p);
            if xs.drop_last().contains(p) {
                let k = choose|k: int| 0 <= k < xs.drop_last().len() && xs.drop_last()[k] == p;
                assert(xs[k] == p);
            }
            if xs.contains(p) {
                let k = choose|k: int| 0 <= k < xs.len() && xs[k] == p;
                assert(k != xs.len() - 1);
                assert(xs.drop_last()[k] == p);
            }
        }
    }
}

proof fn lemma_devices_selected(
    t: Seq<char>,
    paths: Seq<Seq<char>>,
    seen: Seq<Seq<char>>,
    room: Seq<char>,
    ds: Seq<DeviceView>,
)
    ensures
        filtered_devices((t, without_all(paths, seen)), room, ds) == (
            t + selected_devices(room, ds, paths, seen),
            without_all(paths, seen + device_keys(room, ds)),
        ),
    decreases ds.len(),
{
    if ds.len() == 0 {
        assert(seen + device_keys(room, ds) =~= seen);
        assert(t + selected_devices(room, ds, paths, seen) =~= t);
    } else {
        lemma_devices_selected(t, paths, seen, room, ds.drop_last());
        let before = seen + device_keys(room, ds.drop_last());
        let p = path_of(room, ds.last().name);
        lemma_without_all_contains(paths, before, p);
        let after = seen + device_keys(room, ds);
        assert(after.drop_last() =~= before);
        assert(after.last() == p);
        assert(without_all(paths, after) == without(without_all(paths, before), p));
        let a = filtered_devices((t, without_all(paths, seen)), room, ds.drop_last());
        let entry = if paths.contains(p) && !before.contains(p) {
            "\n--> "@ + report_text(ds.last()) + "\n"@
        } else {
            Seq::<char>::empty()
        };
        assert(t + selected_devices(room, ds, paths, seen) =~= (t + selected_devices(
            room,
            ds.drop_last(),
            paths,
            seen,
        )) + entry);
    }
}

/// The matched part of a report filtered by `paths` is exactly one entry for
/// each device whose key is in `paths` (and was not met earlier in the home),
/// under its room's name; the keys left for the "not found" lines are those
/// of `paths` that no device of the home has.
pub proof fn law_filtered_report_parts(rooms: Seq<RoomView>, paths: Seq<Seq<char>>)
    ensures
        filtered_rooms((Seq::empty(), paths), rooms) == (
            selected_rooms(rooms, paths),
            without_all(paths, home_keys(rooms)),
        ),
    decreases rooms.len(),
{
    if rooms.len() == 0 {
        assert(without_all(paths, Seq::<Seq<char>>::empty()) == paths);
    } else {
        law_filtered_report_parts(rooms.drop_last(), paths);
        let a = filtered_rooms((Seq::empty(), paths), rooms.drop_last());
        let r = rooms.last();
        lemma_devices_selected(a.0 + "\n"@ + r.name, paths, home_keys(rooms.drop_last()), r.name, r.devices);
    }
}

} // verus!
