use vstd::prelude::*;
use vstd::string::*;

verus! {

/// A JSON value. Numbers are held as the text that stands for them.
pub enum JsonValue {
    Null,
    Bool(bool),
    Number(String),
    Str(String),
    Array(Vec<JsonValue>),
    Object(Vec<(String, JsonValue)>),
}

#[verifier::external_type_specification]
#[verifier::external_body]
pub struct ExJsonValue(serde_json::Value);

/// The hexadecimal digit `d` (lower case).
pub open spec fn hex_char(d: nat) -> char {
    if d < 10 {
        crate::device::digit_char(d)
    } else if d == 10 {
        'a'
    } else if d == 11 {
        'b'
    } else if d == 12 {
        'c'
    } else if d == 13 {
        'd'
    } else if d == 14 {
        'e'
    } else {
        'f'
    }
}

/// How one character is written inside a JSON string.
pub open spec fn escape_char(c: char) -> Seq<char> {
    if c == '"' {
        seq!['\\', '"']
    } else if c == '\\' {
        seq!['\\', '\\']
    } else if c == '\x08' {
        seq!['\\', 'b']
    } else if c == '\x0c' {
        seq!['\\', 'f']
    } else if c == '\n' {
        seq!['\\', 'n']
    } else if c == '\r' {
        seq!['\\', 'r']
    } else if c == '\t' {
        seq!['\\', 't']
    } else if (c as u32) < 0x20 {
        seq!['\\', 'u', '0', '0', hex_char((c as u32 / 16) as nat), hex_char((c as u32 % 16) as nat)]
    } else {
        seq![c]
    }
}

pub open spec fn escaped(s: Seq<char>) -> Seq<char>
    decreases s.len(),
{
    if s.len() == 0 {
        Seq::empty()
    } else {
        escaped(s.drop_last()) + escape_char(s.last())
    }
}

/// `s` as a JSON string literal.
pub open spec fn quoted(s: Seq<char>) -> Seq<char> {
    seq!['"'] + escaped(s) + seq!['"']
}

/// The compact JSON text of an array or an object.
pub uninterp spec fn compound_text(v: JsonValue) -> Seq<char>;

/// The compact JSON text of `v`.
pub open spec fn json_text(v: JsonValue) -> Seq<char> {
    match v {
        JsonValue::Null => "null"@,
        JsonValue::Bool(b) => if b {
            "true"@
        } else {
            "false"@
        },
        JsonValue::Number(t) => t@,
        JsonValue::Str(s) => quoted(s@),
        _ => compound_text(v),
    }
}

/// `s` without its leading double quotes.
pub open spec fn strip_front(s: Seq<char>) -> Seq<char>
    decreases s.len(),
{
    if s.len() > 0 && s[0] == '"' {
        strip_front(s.drop_first())
    } else {
        s
    }
}

/// `s` without its trailing double quotes.
pub open spec fn strip_back(s: Seq<char>) -> Seq<char>
    decreases s.len(),
{
    if s.len() > 0 && s.last() == '"' {
        strip_back(s.drop_last())
    } else {
        s
    }
}

/// `s` without the double quotes at either end.
pub open spec fn trim_quotes(s: Seq<char>) -> Seq<char> {
    strip_back(strip_front(s))
}

/// The text a parameter stands for: its JSON text without surrounding quotes.
pub open spec fn unquoted_text(v: JsonValue) -> Seq<char> {
    trim_quotes(json_text(v))
}

pub open spec fn has_member(ms: Seq<(String, JsonValue)>, key: Seq<char>) -> bool {
    exists|i: int| 0 <= i < ms.len() && #[trigger] ms[i].0@ == key
}

/// The position of the first member called `key`.
pub open spec fn member_pos(ms: Seq<(String, JsonValue)>, key: Seq<char>) -> int {
    choose|i: int|
        0 <= i < ms.len() && #[trigger] ms[i].0@ == key && forall|k: int|
            0 <= k < i ==> #[trigger] ms[k].0@ != key
}

/// Member `key` of an object; null where there is none.
pub open spec fn field(v: JsonValue, key: Seq<char>) -> JsonValue {
    match v {
        JsonValue::Object(ms) => if has_member(ms@, key) {
            ms@[member_pos(ms@, key)].1
        } else {
            JsonValue::Null
        },
        _ => JsonValue::Null,
    }
}

/// Element `i` of an array; null where there is none.
pub open spec fn item(v: JsonValue, i: int) -> JsonValue {
    match v {
        JsonValue::Array(a) => if 0 <= i < a@.len() {
            a@[i]
        } else {
            JsonValue::Null
        },
        _ => JsonValue::Null,
    }
}

/// The text of a string value.
pub open spec fn str_of(v: JsonValue) -> Option<Seq<char>> {
    match v {
        JsonValue::Str(s) => Some(s@),
        _ => None,
    }
}

/// Relies on `String::push`, which appends one character.
#[verifier::external_body]
fn push_char(s: &mut String, c: char)
    ensures
        final(s)@ == old(s)@.push(c),
{
    s.push(c)
}

/// Builds the `serde_json::Value` that `v` stands for, variant by variant; a
/// number's text is read back with `serde_json::Number`'s `FromStr` (text it
/// does not read becomes null).
#[verifier::external_body]
pub(crate) fn to_serde(v: &JsonValue) -> serde_json::Value {
    match v {
        JsonValue::Null => serde_json::Value::Null,
        JsonValue::Bool(b) => serde_json::Value::Bool(*b),
        JsonValue::Number(t) => t.parse().map_or(serde_json::Value::Null, serde_json::Value::Number),
        JsonValue::Str(s) => serde_json::Value::String(s.clone()),
        JsonValue::Array(a) => serde_json::Value::Array(a.iter().map(to_serde).collect()),
        JsonValue::Object(o) => serde_json::Value::Object(
            o.iter().map(|(k, x)| (k.clone(), to_serde(x))).collect(),
        ),
    }
}

/// Relies on `Display` for `serde_json::Value`, which writes compact JSON.
#[verifier::external_body]
fn compound_json_text(v: &JsonValue) -> (r: String)
    requires
        v is Array || v is Object,
    ensures
        r@ == compound_text(*v),
{
    to_serde(v).to_string()
}

fn hex_str(d: u32) -> (r: char)
    requires
        d < 16,
    ensures
        r == hex_char(d as nat),
{
    if d < 10 {
        if d == 0 { '0' } else if d == 1 { '1' } else if d == 2 { '2' } else if d == 3 { '3' }
        else if d == 4 { '4' } else if d == 5 { '5' } else if d == 6 { '6' } else if d == 7 { '7' }
        else if d == 8 { '8' } else { '9' }
    } else if d == 10 { 'a' } else if d == 11 { 'b' } else if d == 12 { 'c' } else if d == 13 { 'd' }
    else if d == 14 { 'e' } else { 'f' }
}

/// Appends `c` as it is written inside a JSON string.
fn push_escaped(out: &mut String, c: char)
    ensures
        final(out)@ == old(out)@ + escape_char(c),
{
    let ghost start = out@;
    if c == '"' || c == '\\' {
        push_char(out, '\\');
        push_char(out, c);
    } else if c == '\x08' {
        push_char(out, '\\');
        push_char(out, 'b');
    } else if c == '\x0c' {
        push_char(out, '\\');
        push_char(out, 'f');
    } else if c == '\n' {
        push_char(out, '\\');
        push_char(out, 'n');
    } else if c == '\r' {
        push_char(out, '\\');
        push_char(out, 'r');
    } else if c == '\t' {
        push_char(out, '\\');
        push_char(out, 't');
    } else if (c as u32) < 0x20 {
        push_char(out, '\\');
        push_char(out, 'u');
        push_char(out, '0');
        push_char(out, '0');
        push_char(out, hex_str(c as u32 / 16));
        push_char(out, hex_str(c as u32 % 16));
    } else {
        push_char(out, c);
    }
    assert(out@ =~= start + escape_char(c));
}

/// `s` as a JSON string literal.
pub fn quote(s: &str) -> (r: String)
    ensures
        r@ == quoted(s@),
{
    let mut out = String::new();
    push_char(&mut out, '"');
    let n = s.unicode_len();
    let mut i: usize = 0;
    while i < n
        invariant
            n == s@.len(),
            i <= n,
            out@ == seq!['"'] + escaped(s@.take(i as int)),
        decreases n - i,
    {
        let c = s.get_char(i);
        push_escaped(&mut out, c);
        proof {
            assert(s@.take(i + 1).drop_last() =~= s@.take(i as int));
            assert(out@ =~= seq!['"'] + escaped(s@.take(i + 1)));
        }
        i = i + 1;
    }
    assert(s@.take(n as int) =~= s@);
    push_char(&mut out, '"');
    out
}

proof fn lemma_strip_front(s: Seq<char>, i: int)
    requires
        0 <= i <= s.len(),
        forall|k: int| 0 <= k < i ==> s[k] == '"',
    ensures
        strip_front(s) == strip_front(s.subrange(i, s.len() as int)),
    decreases i,
{
    if i > 0 {
        assert(s.drop_first().subrange(i - 1, s.drop_first().len() as int) =~= s.subrange(
            i,
            s.len() as int,
        ));
        lemma_strip_front(s.drop_first(), i - 1);
    } else {
        assert(s.subrange(0, s.len() as int) =~= s);
    }
}

proof fn lemma_strip_back(s: Seq<char>, j: int)
    requires
        0 <= j <= s.len(),
        forall|k: int| j <= k < s.len() ==> s[k] == '"',
    ensures
        strip_back(s) == strip_back(s.subrange(0, j)),
    decreases s.len() - j,
{
    if j < s.len() {
        assert(s.drop_last().subrange(0, j) =~= s.subrange(0, j));
        lemma_strip_back(s.drop_last(), j);
    } else {
        assert(s.subrange(0, j) =~= s);
    }
}

/// `s` without the double quotes at either end.
pub fn trim_quotes_of(s: &str) -> (r: String)
    ensures
        r@ == trim_quotes(s@),
{
    let n = s.unicode_len();
    let mut i: usize = 0;
    while i < n && s.get_char(i) == '"'
        invariant
            n == s@.len(),
            i <= n,
            forall|k: int| 0 <= k < i ==> s@[k] == '"',
        decreases n - i,
    {
        i = i + 1;
    }
    let mut j: usize = n;
    while j > i && s.get_char(j - 1) == '"'
        invariant
            n == s@.len(),
            i <= j <= n,
            forall|k: int| j <= k < n ==> s@[k] == '"',
        decreases j,
    {
        j = j - 1;
    }
    proof {
        lemma_strip_front(s@, i as int);
        let t = s@.subrange(i as int, n as int);
        assert(i < n ==> s@[i as int] != '"');
        assert(strip_front(t) == t);
        lemma_strip_back(t, (j - i) as int);
        let u = t.subrange(0, (j - i) as int);
        assert(u =~= s@.subrange(i as int, j as int));
        assert(j > i ==> u.last() != '"');
    }
    String::from_str(s.substring_char(i, j))
}

/// The JSON text of `v`.
pub fn json_text_of(v: &JsonValue) -> (r: String)
    ensures
        r@ == json_text(*v),
{
    match v {
        JsonValue::Null => String::from_str("null"),
        JsonValue::Bool(b) => if *b {
            String::from_str("true")
        } else {
            String::from_str("false")
        },
        JsonValue::Number(t) => t.clone(),
        JsonValue::Str(s) => quote(s.as_str()),
        _ => compound_json_text(v),
    }
}

/// What a parameter stands for as text: its JSON text without the double
/// quotes at either end (a string parameter gives its contents).
pub fn unquoted(v: &JsonValue) -> (r: String)
    ensures
        r@ == unquoted_text(*v),
{
    let t = json_text_of(v);
    trim_quotes_of(t.as_str())
}

impl JsonValue {
    /// Member `key` of an object; `None` where there is none (the member is
    /// then taken as null).
    pub fn get(&self, key: &str) -> (r: Option<&JsonValue>)
        ensures
            r is Some <==> (*self is Object && has_member(self->Object_0@, key@)),
            r matches Some(x) ==> *x == field(*self, key@),
            r is None ==> field(*self, key@) == JsonValue::Null,
    {
        match self {
            JsonValue::Object(ms) => {
                let k = String::from_str(key);
                let mut i: usize = 0;
                while i < ms.len()
                    invariant
                        i <= ms@.len(),
                        k@ == key@,
                        *self == JsonValue::Object(*ms),
                        forall|t: int| 0 <= t < i ==> #[trigger] ms@[t].0@ != key@,
                    decreases ms@.len() - i,
                {
                    if ms[i].0 == k {
                        proof {
                            let c = member_pos(ms@, key@);
                            assert(has_member(ms@, key@));
                            assert(0 <= i < ms@.len() && ms@[i as int].0@ == key@ && forall|t: int|
                                0 <= t < i ==> #[trigger] ms@[t].0@ != key@);
                            assert(c == i as int) by {
                                if c < i {
                                    assert(ms@[c].0@ != key@);
                                } else if c > i {
                                    assert(ms@[i as int].0@ != key@);
                                }
                            }
                            assert(field(*self, key@) == ms@[i as int].1);
                        }
                        return Some(&ms[i].1);
                    }
                    i = i + 1;
                }
                assert(!has_member(ms@, key@));
                None
            },
            _ => None,
        }
    }

    /// Element `i` of an array; `None` where there is none.
    pub fn at(&self, i: usize) -> (r: Option<&JsonValue>)
        ensures
            r matches Some(x) ==> *x == item(*self, i as int),
            r is None ==> item(*self, i as int) == JsonValue::Null,
    {
        match self {
            JsonValue::Array(a) => if i < a.len() {
                Some(&a[i])
            } else {
                None
            },
            _ => None,
        }
    }

    /// The text of a string value.
    pub fn as_str(&self) -> (r: Option<&str>)
        ensures
            r matches Some(s) ==> str_of(*self) == Some(s@),
            r is None ==> str_of(*self) is None,
    {
        match self {
            JsonValue::Str(s) => Some(s.as_str()),
            _ => None,
        }
    }


    /// Member `key` of an object, taken out of it; null where there is none.
    pub fn take_field(self, key: &str) -> (r: JsonValue)
        ensures
            r == field(self, key@),
    {
        let ghost whole = self;
        match self {
            JsonValue::Object(mut ms) => {
                let k = String::from_str(key);
                let mut i: usize = 0;
                while i < ms.len()
                    invariant
                        i <= ms@.len(),
                        k@ == key@,
                        whole == JsonValue::Object(ms),
                        whole == self,
                        forall|t: int| 0 <= t < i ==> #[trigger] ms@[t].0@ != key@,
                    decreases ms@.len() - i,
                {
                    if ms[i].0 == k {
                        proof {
                            let c = member_pos(ms@, key@);
                            assert(has_member(ms@, key@));
                            assert(0 <= i < ms@.len() && ms@[i as int].0@ == key@ && forall|t: int|
                                0 <= t < i ==> #[trigger] ms@[t].0@ != key@);
                            assert(c == i as int) by {
                                if c < i {
                                    assert(ms@[c].0@ != key@);
                                } else if c > i {
                                    assert(ms@[i as int].0@ != key@);
                                }
                            }
                            assert(field(whole, key@) == ms@[i as int].1);
                        }
                        let ghost target = ms@[i as int];
                        let member = ms.remove(i);
                        assert(member == target);
                        return member.1;
                    }
                    i = i + 1;
                }
                assert(!has_member(ms@, key@));
                JsonValue::Null
            },
            _ => JsonValue::Null,
        }
    }
}

} // verus!
