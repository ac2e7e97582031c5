use vstd::prelude::*;
use vstd::string::*;
use crate::home::{
    Home, SmartHomeError, contains_text, device_at, distinct, filtered_report, has_device_at,
    has_room, is_device_missing, is_room_missing, path_of, texts,
};
use crate::device::report_text;
use crate::json::{JsonValue, field, str_of};

verus! {

/// A filter of devices: for each room, the names of the devices to report.
pub struct JsonDeviceInfoProvider {
    pub schema: Vec<(String, Vec<String>)>,
}

/// A source of device keys ("room=>device") that selects what a filtered
/// report shows.
pub trait IterableProvider {
    /// The keys, in order.
    spec fn paths(&self) -> Seq<Seq<char>>;

    /// The keys, in order.
    fn as_set(&self) -> (r: Vec<String>)
        ensures
            texts(r@) == self.paths(),
    ;
}

/// The keys ("room=>device") of one room's entry of a filter.
pub open spec fn entry_paths(room: Seq<char>, devices: Seq<Seq<char>>) -> Seq<Seq<char>> {
    Seq::new(devices.len(), |k: int| path_of(room, devices[k]))
}

/// The keys of every entry, in order.
pub open spec fn schema_paths(s: Seq<(String, Vec<String>)>) -> Seq<Seq<char>>
    decreases s.len(),
{
    if s.len() == 0 {
        Seq::empty()
    } else {
        schema_paths(s.drop_last()) + entry_paths(s.last().0@, texts(s.last().1@))
    }
}

/// Whether `v` is an array of strings.
pub open spec fn is_name_list(v: JsonValue) -> bool {
    v is Array && forall|k: int|
        0 <= k < v->Array_0@.len() ==> (#[trigger] v->Array_0@[k]) is Str
}

/// Whether `v` reads as a room map: an object whose members are arrays of
/// strings.
pub open spec fn is_room_map(v: JsonValue) -> bool {
    v is Object && forall|i: int|
        0 <= i < v->Object_0@.len() ==> is_name_list(#[trigger] v->Object_0@[i].1)
}

/// Whether `v` reads as a filter: an object whose member `schema` is a room
/// map.
pub open spec fn is_filter(v: JsonValue) -> bool {
    is_room_map(field(v, "schema"@))
}

/// The entries read from the room map `v`: each member's name with the texts
/// of its strings.
pub open spec fn filter_matches(v: JsonValue, s: Seq<(String, Vec<String>)>) -> bool {
    let ms = v->Object_0@;
    &&& s.len() == ms.len()
    &&& forall|i: int|
        0 <= i < s.len() ==> {
            &&& (#[trigger] s[i]).0@ == ms[i].0@
            &&& s[i].1@.len() == ms[i].1->Array_0@.len()
            &&& forall|k: int|
                0 <= k < s[i].1@.len() ==> Some((#[trigger] s[i].1@[k])@) == str_of(
                    ms[i].1->Array_0@[k],
                )
        }
}

/// The strings of an array of strings.
pub open spec fn member_strings(v: JsonValue) -> Seq<Seq<char>> {
    Seq::new(v->Array_0@.len(), |k: int| str_of(v->Array_0@[k])->Some_0)
}

/// The keys of every member of a filter object, in order.
pub open spec fn members_paths(ms: Seq<(String, JsonValue)>) -> Seq<Seq<char>>
    decreases ms.len(),
{
    if ms.len() == 0 {
        Seq::empty()
    } else {
        members_paths(ms.drop_last()) + entry_paths(ms.last().0@, member_strings(ms.last().1))
    }
}

/// The keys of the room map `v`, each once.
pub open spec fn room_map_paths(v: JsonValue) -> Seq<Seq<char>> {
    distinct(members_paths(v->Object_0@))
}

/// The keys of the filter that `v` reads as, each once.
pub open spec fn json_filter_paths(v: JsonValue) -> Seq<Seq<char>> {
    room_map_paths(field(v, "schema"@))
}

proof fn lemma_schema_paths(v: JsonValue, s: Seq<(String, Vec<String>)>, n: int)
    requires
        is_room_map(v),
        filter_matches(v, s),
        0 <= n <= s.len(),
    ensures
        schema_paths(s.take(n)) == members_paths(v->Object_0@.take(n)),
    decreases n,
{
    let ms = v->Object_0@;
    if n > 0 {
        lemma_schema_paths(v, s, n - 1);
        assert(s.take(n).drop_last() =~= s.take(n - 1));
        assert(ms.take(n).drop_last() =~= ms.take(n - 1));
        let e = s[n - 1];
        assert(s.take(n).last() == e);
        assert(ms.take(n).last() == ms[n - 1]);
        assert(is_name_list(ms[n - 1].1));
        assert(texts(e.1@) =~= member_strings(ms[n - 1].1)) by {
            assert forall|k: int| 0 <= k < e.1@.len() implies texts(e.1@)[k] == member_strings(
                ms[n - 1].1,
            )[k] by {
                assert(Some((e.1@[k])@) == str_of(ms[n - 1].1->Array_0@[k]));
            }
        }
    } else {
        assert(s.take(0) =~= Seq::<(String, Vec<String>)>::empty());
        assert(ms.take(0) =~= Seq::<(String, JsonValue)>::empty());
    }
}

/// The texts of a list of string values.
fn name_list(v: &JsonValue) -> (r: Option<Vec<String>>)
    ensures
        r is Some <==> is_name_list(*v),
        r matches Some(names) ==> names@.len() == v->Array_0@.len() && forall|k: int|
            0 <= k < names@.len() ==> Some((#[trigger] names@[k])@) == str_of(v->Array_0@[k]),
{
    match v {
        JsonValue::Array(items) => {
            let mut names: Vec<String> = Vec::new();
            let mut k: usize = 0;
            while k < items.len()
                invariant
                    *v == JsonValue::Array(*items),
                    k <= items@.len(),
                    names@.len() == k,
                    forall|t: int| 0 <= t < k ==> (#[trigger] items@[t]) is Str,
                    forall|t: int|
                        0 <= t < k ==> Some((#[trigger] names@[t])@) == str_of(items@[t]),
                decreases items@.len() - k,
            {
                match &items[k] {
                    JsonValue::Str(s) => {
                        names.push(s.clone());
                    },
                    _ => {
                        return None;
                    },
                }
                k = k + 1;
            }
            Some(names)
        },
        _ => None,
    }
}

/// A message for a value that does not read as a filter.
pub open spec fn filter_error() -> Seq<char> {
    "invalid provider: expected {\"schema\": {room: [device names]}}"@
}

impl JsonDeviceInfoProvider {
    /// Reads a filter from an object whose member `schema` maps room names to
    /// arrays of device names.
    pub fn from_json(json: &JsonValue) -> (r: core::result::Result<JsonDeviceInfoProvider, String>)
        ensures
            r is Ok <==> is_filter(*json),
            r matches Ok(p) ==> filter_matches(field(*json, "schema"@), p.schema@) && p.paths()
                == json_filter_paths(*json),
            r matches Err(e) ==> e@ == filter_error(),
    {
        match json.get("schema") {
            Some(m) => Self::from_room_map(m),
            None => Err(
                String::from_str(
                    "invalid provider: expected {\"schema\": {room: [device names]}}",
                ),
            ),
        }
    }

    fn from_room_map(json: &JsonValue) -> (r: core::result::Result<JsonDeviceInfoProvider, String>)
        ensures
            r is Ok <==> is_room_map(*json),
            r matches Ok(p) ==> filter_matches(*json, p.schema@) && p.paths() == room_map_paths(
                *json,
            ),
            r matches Err(e) ==> e@ == filter_error(),
    {
        match json {
            JsonValue::Object(ms) => {
                let mut schema: Vec<(String, Vec<String>)> = Vec::new();
                let mut i: usize = 0;
                while i < ms.len()
                    invariant
                        *json == JsonValue::Object(*ms),
                        i <= ms@.len(),
                        schema@.len() == i,
                        forall|t: int| 0 <= t < i ==> is_name_list(#[trigger] ms@[t].1),
                        forall|t: int|
                            0 <= t < i ==> {
                                &&& (#[trigger] schema@[t]).0@ == ms@[t].0@
                                &&& schema@[t].1@.len() == ms@[t].1->Array_0@.len()
                                &&& forall|k: int|
                                    0 <= k < schema@[t].1@.len() ==> Some(
                                        (#[trigger] schema@[t].1@[k])@,
                                    ) == str_of(ms@[t].1->Array_0@[k])
                            },
                    decreases ms@.len() - i,
                {
                    match name_list(&ms[i].1) {
                        Some(names) => {
                            schema.push((ms[i].0.clone(), names));
                        },
                        None => {
                            assert(!is_name_list(json->Object_0@[i as int].1));
                            assert(!is_room_map(*json));
                            return Err(
                                String::from_str(
                                    "invalid provider: expected {\"schema\": {room: [device names]}}",
                                ),
                            );
                        },
                    }
                    i = i + 1;
                }
                proof {
                    lemma_schema_paths(*json, schema@, schema@.len() as int);
                    assert(schema@.take(schema@.len() as int) =~= schema@);
                    assert(ms@.take(ms@.len() as int) =~= ms@);
                }
                Ok(JsonDeviceInfoProvider { schema })
            },
            _ => Err(
                String::from_str(
                    "invalid provider: expected {\"schema\": {room: [device names]}}",
                ),
            ),
        }
    }

    /// The report of device `device` of room `room`, or why there is none.
    pub fn get_device_info(&self, home: &Home, room: &str, device: &str) -> (r: core::result::Result<
        String,
        SmartHomeError,
    >)
        requires
            home.wf(),
        ensures
            !has_room(home@.rooms, room@) ==> (r matches Err(e) && is_room_missing(e, room@)),
            has_room(home@.rooms, room@) && !has_device_at(home@, room@, device@) ==> (r matches Err(
                e,
            ) && is_device_missing(e, room@, device@)),
            has_device_at(home@, room@, device@) ==> (r matches Ok(t) && t@ == report_text(
                device_at(home@, room@, device@),
            )),
    {
        match home.get_device(room, device) {
            Ok(d) => Ok(d.report()),
            Err(e) => Err(e),
        }
    }
}

impl IterableProvider for JsonDeviceInfoProvider {
    /// The keys of the filter, each once.
    open spec fn paths(&self) -> Seq<Seq<char>> {
        distinct(schema_paths(self.schema@))
    }

    /// The keys ("room=>device") of the filter, each once, in the order of
    /// the entries.
    fn as_set(&self) -> (r: Vec<String>) {
        let mut out: Vec<String> = Vec::new();
        let mut i: usize = 0;
        assert(self.schema@.take(0) =~= Seq::<(String, Vec<String>)>::empty());
        while i < self.schema.len()
            invariant
                i <= self.schema@.len(),
                texts(out@) == distinct(schema_paths(self.schema@.take(i as int))),
            decreases self.schema@.len() - i,
        {
            let room = &self.schema[i].0;
            let devices = &self.schema[i].1;
            let ghost before = schema_paths(self.schema@.take(i as int));
            let ghost rp = entry_paths(room@, texts(devices@));
            let mut j: usize = 0;
            assert(before + rp.take(0) =~= before);
            while j < devices.len()
                invariant
                    j <= devices@.len(),
                    rp == entry_paths(room@, texts(devices@)),
                    texts(out@) == distinct(before + rp.take(j as int)),
                decreases devices@.len() - j,
            {
                let p = Home::device_path(room.as_str(), devices[j].as_str());
                proof {
                    assert(rp[j as int] == p@);
                    assert((before + rp.take(j + 1)).drop_last() =~= before + rp.take(j as int));
                    assert((before + rp.take(j + 1)).last() == p@);
                }
                if !contains_text(&out, &p) {
                    let ghost prev = out@;
                    out.push(p);
                    assert(texts(out@) =~= texts(prev).push(rp[j as int]));
                }
                j = j + 1;
            }
            proof {
                let s = self.schema@.take(i + 1);
                assert(s.drop_last() =~= self.schema@.take(i as int));
                assert(rp.take(j as int) =~= rp);
                assert(schema_paths(s) == before + rp);
            }
            i = i + 1;
        }
        assert(self.schema@.take(i as int) =~= self.schema@);
        out
    }
}

impl Home {
    /// The report restricted to the devices that `provider` names, then a
    /// marked line for each device it names that the home does not hold.
    pub fn create_provider_report<P: IterableProvider>(&self, provider: &P) -> (r: String)
        ensures
            r@ == filtered_report(self@.rooms, provider.paths()),
    {
        self.create_filtered_report(provider.as_set())
    }
}

} // verus!
