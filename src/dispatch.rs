use vstd::prelude::*;
use vstd::string::*;
use crate::device::{report_text, switch_outcome};
use crate::home::{
    Home, HomeView, SmartHomeError, debug_text, device_at, device_names, device_replaced, filtered_report,
    has_device_at, has_room, home_report, room_added, room_pos, room_removed,
};
use crate::json::{JsonValue, field, item, json_text, str_of, unquoted, unquoted_text, json_text_of};
use crate::provider::{JsonDeviceInfoProvider, filter_error, is_filter, json_filter_paths};
use crate::queue::RPCQueue;
use crate::rpc::{Reply, pack_reply};

verus! {

/// One command of a batch.
pub struct JsonRpcRequest {
    pub id: String,
    pub jsonrpc: String,
    pub method: String,
    pub params: JsonValue,
}

/// `names` joined with `;`.
pub open spec fn join(names: Seq<Seq<char>>) -> Seq<char>
    decreases names.len(),
{
    if names.len() == 0 {
        Seq::empty()
    } else if names.len() == 1 {
        names[0]
    } else {
        join(names.drop_last()) + ";"@ + names.last()
    }
}

/// The text of a missing-room error.
pub open spec fn room_missing_text(room: Seq<char>) -> Seq<char> {
    "room: "@ + room + " not exist"@
}

/// The reply text when a status given to `switch` is not a string.
pub open spec fn wrong_status_text(data: JsonValue) -> Seq<char> {
    "wrong status provided: "@ + match str_of(data) {
        Some(s) => s,
        None => json_text(data),
    }
}

/// The outcome of a `deviceExecute` command on an existing device.
#[verifier::opaque]
pub open spec fn device_command_outcome(
    h: HomeView,
    room: Seq<char>,
    name: Seq<char>,
    command: Seq<char>,
    data: JsonValue,
) -> (HomeView, int, Seq<char>) {
    let d = device_at(h, room, name);
    if command == "get_name"@ {
        (h, 0, d.name)
    } else if command == "get_description"@ {
        (h, 0, d.description)
    } else if command == "get_current_info"@ {
        (h, 0, d.info)
    } else if command == "report"@ {
        (h, 0, report_text(d))
    } else if command == "switch"@ {
        match str_of(item(data, 0)) {
            Some(state) => {
                let (nd, t) = switch_outcome(d, state);
                (device_replaced(h, room, name, nd), 0, t)
            },
            None => (h, -32602, wrong_status_text(data)),
        }
    } else {
        (h, -32601, "wrong device command"@)
    }
}

/// The reply text when a `deviceExecute` command lacks a string room,
/// device or command.
pub open spec fn device_params_text() -> Seq<char> {
    "error: room, device and command must be strings"@
}

/// The outcome of a `deviceExecute` command naming room `room`, device
/// `name` and operation `command`, with `data` as its argument.
#[verifier::opaque]
pub open spec fn located_outcome(
    h: HomeView,
    room: Seq<char>,
    name: Seq<char>,
    command: Seq<char>,
    data: JsonValue,
) -> (HomeView, int, Seq<char>) {
    if !has_room(h.rooms, room) {
        (h, 1, "error: "@ + room_missing_text(room))
    } else if !has_device_at(h, room, name) {
        (
            h,
            1,
            "error: "@ + ("device: "@ + debug_text(name) + " not exist in room: "@ + debug_text(
                room,
            )),
        )
    } else {
        device_command_outcome(h, room, name, command, data)
    }
}

/// The outcome of a `deviceExecute` command with parameters `p`.
#[verifier::opaque]
pub open spec fn device_execute_outcome(h: HomeView, p: JsonValue) -> (HomeView, int, Seq<char>) {
    let room = str_of(field(p, "room"@));
    let name = str_of(field(p, "device"@));
    let command = str_of(field(p, "command"@));
    if room is None || name is None || command is None {
        (h, -32602, device_params_text())
    } else {
        located_outcome(h, room->Some_0, name->Some_0, command->Some_0, field(p, "data"@))
    }
}

/// The reply text of a method the server does not know.
pub open spec fn unknown_method_text() -> Seq<char> {
    "непредвиденный ответ на непредвиденный запрос :)"@
}

pub open spec fn add_room_outcome(h: HomeView, p: JsonValue) -> (HomeView, int, Seq<char>) {
    let name = unquoted_text(field(p, "name"@));
    if has_room(h.rooms, name) {
        (h, 1, "addRoom error: "@ + ("room with same name exist in home: "@ + h.name))
    } else {
        (room_added(h, name, Seq::empty()), 0, "addRoom: success"@)
    }
}

pub open spec fn del_room_outcome(h: HomeView, p: JsonValue) -> (HomeView, int, Seq<char>) {
    let name = unquoted_text(field(p, "name"@));
    if has_room(h.rooms, name) {
        (room_removed(h, name), 0, "delRoom: success"@)
    } else {
        (h, 1, "delRoom error: "@ + room_missing_text(name))
    }
}

pub open spec fn get_devices_outcome(h: HomeView, p: JsonValue) -> (HomeView, int, Seq<char>) {
    let room = unquoted_text(field(p, "room"@));
    if has_room(h.rooms, room) {
        (h, 0, join(device_names(h.rooms[room_pos(h.rooms, room)].devices)))
    } else {
        (h, 1, "error: "@ + room_missing_text(room))
    }
}

pub open spec fn provider_report_outcome(h: HomeView, p: JsonValue) -> (HomeView, int, Seq<char>) {
    let v = field(p, "provider"@);
    if is_filter(v) {
        (h, 0, filtered_report(h.rooms, json_filter_paths(v)))
    } else {
        (h, -32602, "error: "@ + filter_error())
    }
}

/// What one command (other than `reset`) does to the home, and the code and
/// text of its reply.
#[verifier::opaque]
pub open spec fn command_outcome(h: HomeView, cmd: JsonRpcRequest) -> (HomeView, int, Seq<char>) {
    let m = cmd.method@;
    let p = cmd.params;
    if m == "addRoom"@ {
        add_room_outcome(h, p)
    } else if m == "delRoom"@ {
        del_room_outcome(h, p)
    } else if m == "getDevices"@ {
        get_devices_outcome(h, p)
    } else if m == "createReport"@ {
        (h, 0, home_report(h.rooms))
    } else if m == "createProviderReport"@ {
        provider_report_outcome(h, p)
    } else if m == "deviceExecute"@ {
        device_execute_outcome(h, p)
    } else {
        (h, -32603, unknown_method_text())
    }
}

/// Draining the queue `q` from its end: the home after, and for each command
/// executed, in order of execution, its identifier, code and text. A `reset`
/// command answers and drops every command still pending.
pub open spec fn run(h: HomeView, q: Seq<JsonRpcRequest>) -> (HomeView, Seq<(Seq<char>, int, Seq<char>)>)
    decreases q.len(),
{
    if q.len() == 0 {
        (h, Seq::empty())
    } else {
        let c = q.last();
        if c.method@ == "reset"@ {
            (h, seq![(c.id@, 0int, "reset: success"@)])
        } else {
            let o = command_outcome(h, c);
            let rest = run(o.0, q.drop_last());
            (rest.0, seq![(c.id@, o.1, o.2)] + rest.1)
        }
    }
}

/// The replies `rs` answer the outcomes `os`, one for one and in order.
pub open spec fn replies_match(rs: Seq<Reply>, os: Seq<(Seq<char>, int, Seq<char>)>) -> bool {
    &&& rs.len() == os.len()
    &&& forall|i: int| 0 <= i < rs.len() ==> (#[trigger] rs[i]).is_reply(os[i].0, os[i].1, os[i].2)
}

fn lit(s: &str) -> (r: String)
    ensures
        r@ == s@,
{
    String::from_str(s)
}

/// `names` joined with `;`.
pub(crate) fn join_names(names: &Vec<String>) -> (r: String)
    ensures
        r@ == join(crate::home::texts(names@)),
{
    let ghost ns = crate::home::texts(names@);
    let mut out = String::new();
    let mut k: usize = 0;
    assert(ns.take(0) =~= Seq::<Seq<char>>::empty());
    while k < names.len()
        invariant
            k <= names@.len(),
            ns == crate::home::texts(names@),
            out@ == join(ns.take(k as int)),
        decreases names@.len() - k,
    {
        if k > 0 {
            out.append(";");
        }
        out.append(names[k].as_str());
        proof {
            assert(ns.take(k + 1).drop_last() =~= ns.take(k as int));
            assert(ns[k as int] == names@[k as int]@);
            if k == 0 {
                assert(ns.take(1) =~= seq![ns[0]]);
            }
            assert(out@ =~= join(ns.take(k + 1)));
        }
        k = k + 1;
    }
    assert(ns.take(k as int) =~= ns);
    out
}

/// The member `key` of `p`; `null` where there is none.
fn param<'a>(p: &'a JsonValue, key: &str, null: &'a JsonValue) -> (r: &'a JsonValue)
    requires
        *null == JsonValue::Null,
    ensures
        *r == field(*p, key@),
{
    match p.get(key) {
        Some(v) => v,
        None => null,
    }
}

/// `"error: "` followed by the error's message.
fn error_text(prefix: &str, e: &SmartHomeError) -> (r: String)
    ensures
        r@ == prefix@ + e.text_view(),
{
    let mut t = lit(prefix);
    t.append(e.to_text().as_str());
    t
}

impl Home {
    fn device_execute(&mut self, p: &JsonValue) -> (r: (i64, String))
        requires
            old(self).wf(),
        ensures
            final(self).wf(),
            (final(self)@, r.0 as int, r.1@) == device_execute_outcome(old(self)@, *p),
            r.0 == 0 || r.0 == 1 || r.0 == -32601 || r.0 == -32602,
    {
        proof {
            reveal(device_execute_outcome);
        }
        let null = JsonValue::Null;
        let room_v = param(p, "room", &null);
        let device_v = param(p, "device", &null);
        let command_v = param(p, "command", &null);
        let (room, device, command) = match (room_v.as_str(), device_v.as_str(), command_v.as_str()) {
            (Some(r), Some(d), Some(c)) => (r, d, c),
            _ => {
                return (-32602, lit("error: room, device and command must be strings"));
            },
        };
        self.located(room, device, command, param(p, "data", &null))
    }

    fn located(&mut self, room: &str, device: &str, command: &str, data: &JsonValue) -> (r: (
        i64,
        String,
    ))
        requires
            old(self).wf(),
        ensures
            final(self).wf(),
            (final(self)@, r.0 as int, r.1@) == located_outcome(
                old(self)@,
                room@,
                device@,
                command@,
                *data,
            ),
            r.0 == 0 || r.0 == 1 || r.0 == -32601 || r.0 == -32602,
    {
        if lit(command) == lit("switch") {
            self.switch_located(room, device, data)
        } else {
            self.read_located(room, device, command, data)
        }
    }

    fn switch_located(&mut self, room: &str, device: &str, data: &JsonValue) -> (r: (i64, String))
        requires
            old(self).wf(),
        ensures
            final(self).wf(),
            (final(self)@, r.0 as int, r.1@) == located_outcome(
                old(self)@,
                room@,
                device@,
                "switch"@,
                *data,
            ),
            r.0 == 0 || r.0 == 1 || r.0 == -32602,
    {
        proof {
            reveal(located_outcome);
            reveal(device_command_outcome);
            reveal_strlit("switch");
            reveal_strlit("get_name");
            reveal_strlit("get_description");
            reveal_strlit("get_current_info");
            reveal_strlit("report");
            assert("switch"@[0] != "report"@[0]);
        }
        let state = match data.at(0) {
            Some(x) => x.as_str(),
            None => None,
        };
        match state {
            Some(state) => match self.switch_device(room, device, state) {
                Ok(t) => (0, t),
                Err(e) => (1, error_text("error: ", &e)),
            },
            None => match self.get_device(room, device) {
                Err(e) => (1, error_text("error: ", &e)),
                Ok(_) => {
                    let mut t = lit("wrong status provided: ");
                    match data.as_str() {
                        Some(s) => t.append(s),
                        None => t.append(json_text_of(data).as_str()),
                    }
                    (-32602, t)
                },
            },
        }
    }

    fn read_located(&self, room: &str, device: &str, command: &str, data: &JsonValue) -> (r: (
        i64,
        String,
    ))
        requires
            self.wf(),
            command@ != "switch"@,
        ensures
            (self@, r.0 as int, r.1@) == located_outcome(self@, room@, device@, command@, *data),
            r.0 == 0 || r.0 == 1 || r.0 == -32601,
    {
        proof {
            reveal(located_outcome);
            reveal(device_command_outcome);
        }
        let dev = match self.get_device(room, device) {
            Ok(d) => d,
            Err(e) => {
                return (1, error_text("error: ", &e));
            },
        };
        let c = lit(command);
        if c == lit("get_name") {
            (0, dev.get_name())
        } else if c == lit("get_description") {
            (0, dev.get_description())
        } else if c == lit("get_current_info") {
            (0, dev.get_current_info())
        } else if c == lit("report") {
            (0, dev.report())
        } else {
            (-32601, lit("wrong device command"))
        }
    }

    /// Executes one command other than `reset`; returns the code and text of
    /// its reply.
    pub fn run_command(&mut self, cmd: &JsonRpcRequest) -> (r: (i64, String))
        requires
            old(self).wf(),
        ensures
            final(self).wf(),
            (final(self)@, r.0 as int, r.1@) == command_outcome(old(self)@, *cmd),
            r.0 == 0 || r.0 == 1 || r.0 == -32601 || r.0 == -32602 || r.0 == -32603,
    {
        proof {
            reveal(command_outcome);
        }
        let p = &cmd.params;
        let m = &cmd.method;
        if *m == lit("addRoom") {
            self.add_room_command(p)
        } else if *m == lit("delRoom") {
            self.del_room_command(p)
        } else if *m == lit("getDevices") {
            self.get_devices_command(p)
        } else if *m == lit("createReport") {
            (0, self.create_report())
        } else if *m == lit("createProviderReport") {
            self.provider_report_command(p)
        } else if *m == lit("deviceExecute") {
            self.device_execute(p)
        } else {
            (-32603, lit("непредвиденный ответ на непредвиденный запрос :)"))
        }
    }

    fn add_room_command(&mut self, p: &JsonValue) -> (r: (i64, String))
        requires
            old(self).wf(),
        ensures
            final(self).wf(),
            (final(self)@, r.0 as int, r.1@) == add_room_outcome(old(self)@, *p),
            r.0 == 0 || r.0 == 1,
    {
        let null = JsonValue::Null;
        let name = unquoted(param(p, "name", &null));
        let no_devices: Vec<crate::device::SmartDevice> = Vec::new();
        assert(crate::home::device_views(no_devices@) =~= Seq::empty());
        match self.add_room(name, no_devices) {
            Ok(()) => (0, lit("addRoom: success")),
            Err(e) => (1, error_text("addRoom error: ", &e)),
        }
    }

    fn del_room_command(&mut self, p: &JsonValue) -> (r: (i64, String))
        requires
            old(self).wf(),
        ensures
            final(self).wf(),
            (final(self)@, r.0 as int, r.1@) == del_room_outcome(old(self)@, *p),
            r.0 == 0 || r.0 == 1,
    {
        let null = JsonValue::Null;
        let name = unquoted(param(p, "name", &null));
        match self.del_room(name.as_str()) {
            Ok(()) => (0, lit("delRoom: success")),
            Err(e) => (1, error_text("delRoom error: ", &e)),
        }
    }

    fn get_devices_command(&self, p: &JsonValue) -> (r: (i64, String))
        requires
            self.wf(),
        ensures
            (self@, r.0 as int, r.1@) == get_devices_outcome(self@, *p),
            r.0 == 0 || r.0 == 1,
    {
        let null = JsonValue::Null;
        let room = unquoted(param(p, "room", &null));
        match self.get_devices(room.as_str()) {
            Ok(names) => (0, join_names(&names)),
            Err(e) => (1, error_text("error: ", &e)),
        }
    }

    fn provider_report_command(&self, p: &JsonValue) -> (r: (i64, String))
        ensures
            (self@, r.0 as int, r.1@) == provider_report_outcome(self@, *p),
            r.0 == 0 || r.0 == -32602,
    {
        let null = JsonValue::Null;
        match JsonDeviceInfoProvider::from_json(param(p, "provider", &null)) {
            Ok(provider) => (0, self.create_provider_report(&provider)),
            Err(e) => {
                let mut t = lit("error: ");
                t.append(e.as_str());
                (-32602, t)
            },
        }
    }

    /// Drains `requests` from its end, executing each command against the
    /// home, and returns one reply per command executed, in the order of
    /// execution. A `reset` command drops every command still pending.
    pub fn execute(&mut self, requests: &mut RPCQueue<JsonRpcRequest>) -> (r: Vec<Reply>)
        requires
            old(self).wf(),
        ensures
            final(self).wf(),
            final(requests)@.len() == 0,
            final(self)@ == run(old(self)@, old(requests)@).0,
            replies_match(r@, run(old(self)@, old(requests)@).1),
    {
        let ghost h0 = self@;
        let ghost q0 = requests@;
        let mut replies: Vec<Reply> = Vec::new();
        let ghost mut done: Seq<(Seq<char>, int, Seq<char>)> = Seq::empty();
        while requests.len() > 0
            invariant
                self.wf(),
                run(h0, q0) == (run(self@, requests@).0, done + run(self@, requests@).1),
                replies_match(replies@, done),
            decreases requests@.len(),
        {
            let ghost h = self@;
            let ghost q = requests@;
            match requests.pop() {
                Some(cmd) => {
                    if cmd.method == lit("reset") {
                        requests.reset();
                        let ghost entry = (cmd.id@, 0int, "reset: success"@);
                        replies.push(pack_reply(cmd.id, 0, lit("reset: success")));
                        proof {
                            assert(run(h, q).1 =~= seq![entry]);
                            assert(run(self@, requests@).1 =~= Seq::<(Seq<char>, int, Seq<char>)>::empty());
                            assert(done + run(h, q).1 =~= done.push(entry) + run(self@, requests@).1);
                            done = done.push(entry);
                        }
                    } else {
                        let ghost entry_id = cmd.id@;
                        let (code, text) = self.run_command(&cmd);
                        let ghost entry = (entry_id, code as int, text@);
                        replies.push(pack_reply(cmd.id, code, text));
                        proof {
                            assert(done + run(h, q).1 =~= done.push(entry) + run(self@, requests@).1);
                            done = done.push(entry);
                        }
                    }
                },
                None => {},
            }
        }
        proof {
            assert(done + run(self@, requests@).1 =~= done);
        }
        replies
    }
}

/// Whether no command of `q` is a `reset`.
pub open spec fn no_reset(q: Seq<JsonRpcRequest>) -> bool {
    forall|i: int| 0 <= i < q.len() ==> (#[trigger] q[i]).method@ != "reset"@
}

/// Draining `pending + tail`, where `tail` holds no `reset`, first drains
/// `tail` and then `pending` from the home that `tail` left.
pub proof fn lemma_run_split(h: HomeView, pending: Seq<JsonRpcRequest>, tail: Seq<JsonRpcRequest>)
    requires
        no_reset(tail),
    ensures
        run(h, pending + tail) == (
            run(run(h, tail).0, pending).0,
            run(h, tail).1 + run(run(h, tail).0, pending).1,
        ),
    decreases tail.len(),
{
    if tail.len() == 0 {
        assert(pending + tail =~= pending);
        assert(run(h, tail).1 + run(h, pending).1 =~= run(h, pending).1);
    } else {
        let c = tail.last();
        assert((pending + tail).last() == c);
        assert((pending + tail).drop_last() =~= pending + tail.drop_last());
        assert(tail[tail.len() - 1] == c);
        let o = command_outcome(h, c);
        lemma_run_split(o.0, pending, tail.drop_last());
        let t = run(o.0, tail.drop_last());
        let pr = run(t.0, pending);
        assert(seq![(c.id@, o.1, o.2)] + (t.1 + pr.1) =~= (seq![(c.id@, o.1, o.2)] + t.1) + pr.1);
    }
}

/// A batch without `reset` gets exactly one reply per command, and the
/// replies come in the order the queue is drained: the reply at position `i`
/// answers the command pushed `i`-th from the end.
pub proof fn law_one_reply_per_command(h: HomeView, q: Seq<JsonRpcRequest>, rs: Seq<Reply>)
    requires
        no_reset(q),
        replies_match(rs, run(h, q).1),
    ensures
        rs.len() == q.len(),
        forall|i: int| 0 <= i < q.len() ==> (#[trigger] rs[i]).id_view() == q[q.len() - 1 - i].id@,
    decreases q.len(),
{
    if q.len() > 0 {
        let c = q.last();
        assert(q[q.len() - 1] == c);
        let o = command_outcome(h, c);
        let t = run(o.0, q.drop_last());
        assert(no_reset(q.drop_last())) by {
            assert forall|i: int| 0 <= i < q.drop_last().len() implies (#[trigger] q.drop_last()[i]).method@ != "reset"@ by {
                assert(q.drop_last()[i] == q[i]);
            }
        }
        law_one_reply_per_command(o.0, q.drop_last(), rs.drop_first());
        assert forall|i: int| 0 <= i < q.len() implies (#[trigger] rs[i]).id_view() == q[q.len() - 1 - i].id@ by {
            if i > 0 {
                assert(rs.drop_first()[i - 1] == rs[i]);
                assert(q.drop_last()[q.drop_last().len() - 1 - (i - 1)] == q[q.len() - 1 - i]);
            }
        }
    }
}

/// A `reset` drops every command still pending behind it: the home and the
/// replies are those of draining only the commands before it (`tail`, none
/// of them a `reset`), followed by the reply to the `reset` itself.
pub proof fn law_reset_drops_pending(
    h: HomeView,
    pending: Seq<JsonRpcRequest>,
    reset: JsonRpcRequest,
    tail: Seq<JsonRpcRequest>,
)
    requires
        reset.method@ == "reset"@,
        no_reset(tail),
    ensures
        run(h, pending.push(reset) + tail) == (
            run(h, tail).0,
            run(h, tail).1.push((reset.id@, 0int, "reset: success"@)),
        ),
{
    lemma_run_split(h, pending.push(reset), tail);
    let t = run(h, tail);
    assert(pending.push(reset).last() == reset);
    assert(run(t.0, pending.push(reset)).1 =~= seq![(reset.id@, 0int, "reset: success"@)]);
    assert(t.1 + seq![(reset.id@, 0int, "reset: success"@)] =~= t.1.push((reset.id@, 0int, "reset: success"@)));
}

} // verus!
