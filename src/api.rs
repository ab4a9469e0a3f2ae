//! The command and advertisement data model and its JSON wire format.
use std::collections::HashMap;
use vstd::prelude::*;
use crate::json::{
    array_text, inner, json_string, lemma_plain_is_quoted, plain, quoted, json_string_value, members_view, object_text,
    plain_literal, quote, render_array, render_object, texts_view, unquote,
};
use crate::text::{
    chars_of, decimal, digit_value, push_char, push_decimal, push_signed_decimal, signed_decimal,
};

verus! {

/// A directive for the appliance.
#[derive(Debug, Clone, Copy, PartialEq, Eq, Structural)]
pub enum Command {
    Start,
    Clean,
    Pause,
    Stop,
    Resume,
    Dock,
    Evac,
    Train,
}

/// The name under which a command travels.
pub open spec fn command_tag(c: Command) -> Seq<char> {
    match c {
        Command::Start => "start"@,
        Command::Clean => "clean"@,
        Command::Pause => "pause"@,
        Command::Stop => "stop"@,
        Command::Resume => "resume"@,
        Command::Dock => "dock"@,
        Command::Evac => "evac"@,
        Command::Train => "train"@,
    }
}

/// The command that travels under a name, if any does.
pub open spec fn command_of_tag(t: Seq<char>) -> Option<Command> {
    if t == "start"@ {
        Some(Command::Start)
    } else if t == "clean"@ {
        Some(Command::Clean)
    } else if t == "pause"@ {
        Some(Command::Pause)
    } else if t == "stop"@ {
        Some(Command::Stop)
    } else if t == "resume"@ {
        Some(Command::Resume)
    } else if t == "dock"@ {
        Some(Command::Dock)
    } else if t == "evac"@ {
        Some(Command::Evac)
    } else if t == "train"@ {
        Some(Command::Train)
    } else {
        None
    }
}

/// The command that a JSON document names, if it is a string literal holding a command's name.
pub open spec fn command_of_document(doc: Seq<char>) -> Option<Command> {
    match json_string_value(doc) {
        Some(t) => command_of_tag(t),
        None => None,
    }
}

impl Command {
    /// The name under which this command travels.
    pub fn tag(&self) -> (r: &'static str)
        ensures
            r@ == command_tag(*self),
    {
        match self {
            Command::Start => "start",
            Command::Clean => "clean",
            Command::Pause => "pause",
            Command::Stop => "stop",
            Command::Resume => "resume",
            Command::Dock => "dock",
            Command::Evac => "evac",
            Command::Train => "train",
        }
    }

    /// The command with the given name.
    pub fn from_tag(tag: &str) -> (r: Option<Command>)
        ensures
            r == command_of_tag(tag@),
    {
        let t = String::from_str(tag);
        if t == String::from_str("start") {
            Some(Command::Start)
        } else if t == String::from_str("clean") {
            Some(Command::Clean)
        } else if t == String::from_str("pause") {
            Some(Command::Pause)
        } else if t == String::from_str("stop") {
            Some(Command::Stop)
        } else if t == String::from_str("resume") {
            Some(Command::Resume)
        } else if t == String::from_str("dock") {
            Some(Command::Dock)
        } else if t == String::from_str("evac") {
            Some(Command::Evac)
        } else if t == String::from_str("train") {
            Some(Command::Train)
        } else {
            None
        }
    }

    /// Reads a command from its JSON form, a string literal holding its name.
    pub fn from_json(doc: &str) -> (r: Option<Command>)
        ensures
            r == command_of_document(doc@),
            plain_literal(doc@) ==> r == command_of_tag(inner(doc@)),
    {
        match unquote(doc) {
            Some(t) => Command::from_tag(t.as_str()),
            None => None,
        }
    }
}

/// A cleaning zone: its identifier and its kind.
#[derive(Debug, Clone)]
pub struct Region {
    pub region_id: String,
    pub type_: String,
}

/// Why a region identifier was refused.
#[derive(Debug, Clone, Copy, PartialEq, Eq, Structural)]
pub struct ParseRegionError;

/// Whether every character is a decimal digit.
pub open spec fn all_digits(s: Seq<char>) -> bool {
    forall|i: int| 0 <= i < s.len() ==> #[trigger] digit_value(s[i]) is Some
}

/// The number that a string of decimal digits writes.
pub open spec fn digits_value(s: Seq<char>) -> nat
    decreases s.len(),
{
    if s.len() == 0 {
        0
    } else {
        digits_value(s.drop_last()) * 10 + (s.last() as nat - '0' as nat) as nat
    }
}

/// The digits of an unsigned numeral, after an optional plus sign.
pub open spec fn unsigned_digits(s: Seq<char>) -> Seq<char> {
    if s.len() > 0 && s[0] == '+' {
        s.skip(1)
    } else {
        s
    }
}

/// The region identifier that a numeral gives: an optional plus sign, then at least one
/// decimal digit, for a value that fits in 64 bits.
pub open spec fn region_number(s: Seq<char>) -> Option<nat> {
    let d = unsigned_digits(s);
    if d.len() > 0 && all_digits(d) && digits_value(d) <= u64::MAX {
        Some(digits_value(d))
    } else {
        None
    }
}

/// The members of a region's JSON object.
pub open spec fn region_members(r: Region) -> Seq<(Seq<char>, Seq<char>)> {
    seq![("region_id"@, json_string(r.region_id@)), ("type"@, json_string(r.type_@))]
}

/// The JSON text of a region.
pub open spec fn region_text(r: Region) -> Seq<char> {
    object_text(region_members(r))
}

impl std::str::FromStr for Region {
    type Err = ParseRegionError;

    /// Reads a region identifier typed as a non-negative decimal number.
    fn from_str(src: &str) -> (r: Result<Region, ParseRegionError>)
        ensures
            r is Ok <==> region_number(src@) is Some,
            r is Ok ==> r->Ok_0.region_id@ == decimal(region_number(src@)->0)
                && r->Ok_0.type_@ == "rid"@,
    {
        Region::parse_id(src)
    }
}

impl Region {
    /// The region with a numeric identifier, of kind `rid`.
    pub fn from_id(id: u64) -> (r: Region)
        ensures
            r.region_id@ == decimal(id as nat),
            r.type_@ == "rid"@,
    {
        let mut region_id = String::new();
        push_decimal(&mut region_id, id);
        assert(region_id@ =~= decimal(id as nat));
        Region { region_id, type_: String::from_str("rid") }
    }

    /// Reads a region identifier typed as a non-negative decimal number.
    pub fn parse_id(src: &str) -> (r: Result<Region, ParseRegionError>)
        ensures
            r is Ok <==> region_number(src@) is Some,
            r is Ok ==> r->Ok_0.region_id@ == decimal(region_number(src@)->0)
                && r->Ok_0.type_@ == "rid"@,
    {
        let cs = chars_of(src);
        let n = cs.len();
        let start: usize = if n > 0 && cs[0] == '+' {
            1
        } else {
            0
        };
        let ghost d = unsigned_digits(src@);
        assert(d =~= cs@.subrange(start as int, n as int));
        if start == n {
            return Err(ParseRegionError);
        }
        let mut value: u64 = 0;
        let mut j: usize = start;
        while j < n
            invariant
                start <= j <= n,
                n == cs.len(),
                cs@ == src@,
                d == cs@.subrange(start as int, n as int),
                d == unsigned_digits(src@),
                all_digits(cs@.subrange(start as int, j as int)),
                value == digits_value(cs@.subrange(start as int, j as int)),
            decreases n - j,
        {
            let c = cs[j];
            assert(d[j - start] == c);
            if !('0' <= c && c <= '9') {
                assert(digit_value(d[j - start]) is None);
                return Err(ParseRegionError);
            }
            let dv: u64 = (c as u64) - ('0' as u64);
            let ghost prefix = cs@.subrange(start as int, j + 1);
            assert(prefix.drop_last() =~= cs@.subrange(start as int, j as int));
            assert(prefix.last() == c);
            assert(digits_value(prefix) == value * 10 + dv);
            if value > (u64::MAX - dv) / 10 {
                proof {
                    assert(value * 10 + dv > u64::MAX) by (nonlinear_arith)
                        requires
                            value > (u64::MAX - dv) / 10,
                            dv <= 9,
                    ;
                    lemma_digits_value_grows(d, (j + 1 - start) as int);
                    assert(d.take((j + 1 - start) as int) =~= prefix);
                }
                return Err(ParseRegionError);
            }
            assert(value * 10 + dv <= u64::MAX) by (nonlinear_arith)
                requires
                    value <= (u64::MAX - dv) / 10,
                    dv <= 9,
            ;
            value = value * 10 + dv;
            j = j + 1;
            assert(all_digits(cs@.subrange(start as int, j as int)));
        }
        Ok(Region::from_id(value))
    }

    /// A copy of this region.
    pub fn copy(&self) -> (r: Region)
        ensures
            r == *self,
    {
        Region { region_id: self.region_id.clone(), type_: self.type_.clone() }
    }

    /// The JSON text of this region.
    pub fn to_json(&self) -> (r: String)
        ensures
            r@ == region_text(*self),
    {
        let mut members: Vec<(String, String)> = Vec::new();
        members.push((String::from_str("region_id"), quote(self.region_id.as_str())));
        members.push((String::from_str("type"), quote(self.type_.as_str())));
        let r = render_object(&members);
        assert(members_view(members@) =~= region_members(*self));
        r
    }
}

/// The regions to clean, attached to a start command.
#[derive(Debug, Clone)]
pub struct StartRegions {
    pub pmap_id: String,
    pub user_pmapv_id: String,
    pub ordered: i64,
    pub regions: Vec<Region>,
}

/// What a command may carry besides its name.
#[derive(Debug, Clone)]
pub enum Extra {
    StartRegions(StartRegions),
}

/// A message of the wire protocol: a command, or a state delta.
#[derive(Debug, Clone)]
pub enum Message {
    Cmd { command: Command, time: u64, initiator: String, extra: Option<Extra> },
    Delta,
}

/// The JSON texts of a list of regions.
pub open spec fn region_texts(regions: Seq<Region>) -> Seq<Seq<char>> {
    regions.map_values(|r: Region| region_text(r))
}

/// The members that an extra adds to the top level of a command's object.
pub open spec fn extra_members(extra: Option<Extra>) -> Seq<(Seq<char>, Seq<char>)> {
    match extra {
        None => Seq::empty(),
        Some(Extra::StartRegions(sr)) => seq![
            ("pmap_id"@, json_string(sr.pmap_id@)),
            ("user_pmapv_id"@, json_string(sr.user_pmapv_id@)),
            ("ordered"@, signed_decimal(sr.ordered as int)),
            ("regions"@, array_text(region_texts(sr.regions@))),
        ],
    }
}

/// The members of a command's JSON object: its name, time and initiator, then the members of
/// its extra, merged at the same level.
pub open spec fn message_members(m: Message) -> Seq<(Seq<char>, Seq<char>)> {
    match m {
        Message::Cmd { command, time, initiator, extra } => seq![
            ("command"@, quoted(command_tag(command))),
            ("time"@, decimal(time as nat)),
            ("initiator"@, json_string(initiator@)),
        ] + extra_members(extra),
        Message::Delta => Seq::empty(),
    }
}

/// The JSON text of a message: a command is an object, a delta is `null`.
pub open spec fn payload_text(m: Message) -> Seq<char> {
    match m {
        Message::Cmd { .. } => object_text(message_members(m)),
        Message::Delta => "null"@,
    }
}

/// The initiator that this client signs its commands with.
pub open spec fn local_initiator() -> Seq<char> {
    "localApp"@
}

/// Relies on `SystemTime::elapsed` of `UNIX_EPOCH`: the time since the epoch by the system
/// clock, in whole seconds. Nothing is known of it; a clock set before the epoch reads as zero.
#[verifier::external_body]
fn seconds_since_epoch() -> (r: u64) {
    std::time::UNIX_EPOCH.elapsed().unwrap_or_default().as_secs()
}

impl Message {
    /// A command stamped with the given time, signed by this client.
    pub fn command_at(command: Command, extra: Option<Extra>, time: u64) -> (r: Message)
        requires
            extra is Some ==> command == Command::Start,
        ensures
            r == (Message::Cmd {
                command,
                time,
                initiator: r->Cmd_initiator,
                extra,
            }),
            r->Cmd_initiator@ == local_initiator(),
    {
        Message::Cmd { command, time, initiator: String::from_str("localApp"), extra }
    }

    /// A command stamped with the current time, signed by this client.
    pub fn new_command(command: Command, extra: Option<Extra>) -> (r: Message)
        requires
            extra is Some ==> command == Command::Start,
        ensures
            r is Cmd,
            r->Cmd_command == command,
            r->Cmd_extra == extra,
            r->Cmd_initiator@ == local_initiator(),
    {
        let time = seconds_since_epoch();
        Message::command_at(command, extra, time)
    }

    /// The channel that a command is published on.
    pub fn topic(&self) -> (r: &'static str)
        requires
            self is Cmd,
        ensures
            r@ == "cmd"@,
    {
        "cmd"
    }

    /// The members of this command's JSON object, as keys and JSON texts of values.
    pub fn members(&self) -> (r: Vec<(String, String)>)
        requires
            self is Cmd,
        ensures
            members_view(r@) == message_members(*self),
    {
        match self {
            Message::Cmd { command, time, initiator, extra } => {
                let mut members: Vec<(String, String)> = Vec::new();
                proof {
                    lemma_tags_plain(*command);
                    lemma_plain_is_quoted(command_tag(*command));
                }
                members.push((String::from_str("command"), quote(command.tag())));
                let mut t = String::new();
                push_decimal(&mut t, *time);
                members.push((String::from_str("time"), t));
                members.push((String::from_str("initiator"), quote(initiator.as_str())));
                match extra {
                    None => {},
                    Some(Extra::StartRegions(sr)) => {
                        members.push((String::from_str("pmap_id"), quote(sr.pmap_id.as_str())));
                        members.push(
                            (String::from_str("user_pmapv_id"), quote(sr.user_pmapv_id.as_str())),
                        );
                        let mut o = String::new();
                        push_signed_decimal(&mut o, sr.ordered);
                        members.push((String::from_str("ordered"), o));
                        let regions = regions_json(&sr.regions);
                        members.push((String::from_str("regions"), regions));
                    },
                }
                assert(members_view(members@) =~= message_members(*self));
                members
            },
            Message::Delta => Vec::new(),
        }
    }

    /// The JSON text that this message travels as.
    pub fn payload(&self) -> (r: String)
        ensures
            r@ == payload_text(*self),
    {
        match self {
            Message::Cmd { .. } => {
                let members = self.members();
                render_object(&members)
            },
            Message::Delta => String::from_str("null"),
        }
    }
}

/// The JSON array of a list of regions.
fn regions_json(regions: &Vec<Region>) -> (r: String)
    ensures
        r@ == array_text(region_texts(regions@)),
{
    let mut texts: Vec<String> = Vec::new();
    let mut i: usize = 0;
    while i < regions.len()
        invariant
            0 <= i <= regions.len(),
            texts.len() == i,
            texts_view(texts@) == region_texts(regions@).take(i as int),
        decreases regions.len() - i,
    {
        let t = regions[i].to_json();
        let ghost before = texts@;
        texts.push(t);
        proof {
            assert forall|k: int| 0 <= k < i + 1 implies #[trigger] texts_view(texts@)[k]
                == region_texts(regions@).take(i + 1)[k] by {
                if k < i {
                    assert(texts@[k] == before[k]);
                    assert(texts_view(before)[k] == region_texts(regions@).take(i as int)[k]);
                }
            }
            assert(texts_view(texts@) =~= region_texts(regions@).take(i + 1));
        }
        i = i + 1;
    }
    assert(region_texts(regions@).take(i as int) =~= region_texts(regions@));
    render_array(&texts)
}

/// A discovery reply: the device's address and hostname, its identifier when it gives one,
/// and whatever else it advertised.
pub struct Info {
    pub ip: String,
    pub hostname: String,
    pub robot_id: Option<String>,
    pub attrs: HashMap<String, serde_json::Value>,
}

/// The hostname gives no identity: it does not start with a known vendor prefix and a dash.
#[derive(Debug, Clone, Copy, PartialEq, Eq, Structural)]
pub struct ParseRobotIdError;

impl ParseRobotIdError {
    /// A sentence that says what went wrong.
    pub fn message(&self) -> (r: String)
        ensures
            r@ == "could not parse robot ID in hostname"@,
    {
        String::from_str("could not parse robot ID in hostname")
    }
}

/// `k` is the position of the first dash in `h`.
pub open spec fn first_dash_at(h: Seq<char>, k: int) -> bool {
    &&& 0 <= k < h.len()
    &&& h[k] == '-'
    &&& forall|j: int| 0 <= j < k ==> h[j] != '-'
}

/// The vendor prefixes that a hostname may start with.
pub open spec fn identity_prefix(p: Seq<char>) -> bool {
    p == "iRobot"@ || p == "Roomba"@
}

/// The identity in a hostname: split at the first dash, what follows it, provided that what
/// precedes it is a vendor prefix.
pub open spec fn hostname_identity(h: Seq<char>) -> Option<Seq<char>> {
    if exists|k: int| first_dash_at(h, k) {
        let k = choose|k: int| first_dash_at(h, k);
        if identity_prefix(h.take(k)) {
            Some(h.skip(k + 1))
        } else {
            None
        }
    } else {
        None
    }
}

/// A device's identity: the identifier it advertised, or else the one in its hostname.
pub open spec fn device_identity(info: Info) -> Option<Seq<char>> {
    match info.robot_id {
        Some(id) => Some(id@),
        None => hostname_identity(info.hostname@),
    }
}

proof fn lemma_first_dash_unique(h: Seq<char>, k1: int, k2: int)
    requires
        first_dash_at(h, k1),
        first_dash_at(h, k2),
    ensures
        k1 == k2,
{
    if k1 < k2 {
        assert(h[k1] != '-');
    } else if k2 < k1 {
        assert(h[k2] != '-');
    }
}

impl Info {
    /// The device's identity, used as the user name of a session.
    pub fn robot_id(&self) -> (r: Result<String, ParseRobotIdError>)
        ensures
            r is Ok <==> device_identity(*self) is Some,
            r is Ok ==> r->Ok_0@ == device_identity(*self)->0,
    {
        match &self.robot_id {
            Some(id) => Ok(id.clone()),
            None => identity_from_hostname(self.hostname.as_str()),
        }
    }
}

/// The identity in a hostname.
pub fn identity_from_hostname(hostname: &str) -> (r: Result<String, ParseRobotIdError>)
    ensures
        r is Ok <==> hostname_identity(hostname@) is Some,
        r is Ok ==> r->Ok_0@ == hostname_identity(hostname@)->0,
{
    let ghost h = hostname@;
    let mut before = String::new();
    let mut after = String::new();
    let mut seen = false;
    for c in it: hostname.chars()
        invariant
            it.seq() == h,
            h == hostname@,
            !seen ==> after@.len() == 0 && before@ == h.take(it.index() as int) && (forall|j: int|
                0 <= j < it.index() ==> h[j] != '-'),
            seen ==> before@.len() < it.index() && first_dash_at(h, before@.len() as int)
                && before@ == h.take(before@.len() as int) && after@ == h.subrange(
                before@.len() + 1 as int,
                it.index() as int,
            ),
    {
        let ghost i = it.index();
        if seen {
            push_char(&mut after, c);
            assert(after@ =~= h.subrange(before@.len() + 1 as int, i + 1));
        } else if c == '-' {
            seen = true;
            assert(after@ =~= h.subrange(before@.len() + 1 as int, i + 1));
        } else {
            push_char(&mut before, c);
            assert(before@ =~= h.take(i + 1));
        }
    }
    if !seen {
        return Err(ParseRobotIdError);
    }
    proof {
        let k = choose|k: int| first_dash_at(h, k);
        lemma_first_dash_unique(h, k, before@.len() as int);
        assert(after@ =~= h.skip(k + 1));
    }
    if before == String::from_str("iRobot") || before == String::from_str("Roomba") {
        Ok(after)
    } else {
        Err(ParseRobotIdError)
    }
}

/// A hostname made of a prefix without dashes, a dash and an identifier gives exactly that
/// identifier when the prefix is `iRobot` or `Roomba`, and no identity otherwise. A reply
/// without an explicit identifier takes its identity from such a hostname.
pub proof fn lemma_identity_from_hostname(info: Info, prefix: Seq<char>, id: Seq<char>)
    requires
        forall|i: int| 0 <= i < prefix.len() ==> prefix[i] != '-',
        info.robot_id is None,
        info.hostname@ == prefix + seq!['-'] + id,
    ensures
        device_identity(info) == (if prefix == "iRobot"@ || prefix == "Roomba"@ {
            Some(id)
        } else {
            None
        }),
{
    let h = prefix + seq!['-'] + id;
    let k = prefix.len() as int;
    assert(first_dash_at(h, k));
    let c = choose|k: int| first_dash_at(h, k);
    lemma_first_dash_unique(h, k, c);
    assert(h.take(k) =~= prefix);
    assert(h.skip(k + 1) =~= id);
}

/// Command names need no escape in JSON.
proof fn lemma_tags_plain(c: Command)
    ensures
        plain(command_tag(c)),
{
    reveal_strlit("start");
    reveal_strlit("clean");
    reveal_strlit("pause");
    reveal_strlit("stop");
    reveal_strlit("resume");
    reveal_strlit("dock");
    reveal_strlit("evac");
    reveal_strlit("train");
}

/// Each command's name leads back to that command.
proof fn lemma_tag_round_trip(c: Command)
    ensures
        command_of_tag(command_tag(c)) == Some(c),
{
    reveal_strlit("start");
    reveal_strlit("clean");
    reveal_strlit("pause");
    reveal_strlit("stop");
    reveal_strlit("resume");
    reveal_strlit("dock");
    reveal_strlit("evac");
    reveal_strlit("train");
    let t = command_tag(c);
    assert(t.len() != "start"@.len() || t[0] != "start"@[0] || t == "start"@);
    assert(t.len() != "clean"@.len() || t[0] != "clean"@[0] || t == "clean"@);
    assert(t.len() != "pause"@.len() || t[0] != "pause"@[0] || t == "pause"@);
    assert(t.len() != "stop"@.len() || t[0] != "stop"@[0] || t == "stop"@);
    assert(t.len() != "resume"@.len() || t[0] != "resume"@[0] || t == "resume"@);
    assert(t.len() != "dock"@.len() || t[0] != "dock"@[0] || t == "dock"@);
    assert(t.len() != "evac"@.len() || t[0] != "evac"@[0] || t == "evac"@);
    assert(t.len() != "train"@.len() || t[0] != "train"@[0] || t == "train"@);
}

/// The keys of an object's members, in order.
pub open spec fn member_keys(members: Seq<(Seq<char>, Seq<char>)>) -> Seq<Seq<char>> {
    members.map_values(|m: (Seq<char>, Seq<char>)| m.0)
}

/// A command without extra travels as an object of exactly `command`, `time` and
/// `initiator`; with a region selection, the selection's four fields stand beside those
/// three at the top level, not nested.
pub proof fn lemma_command_object_keys(m: Message)
    requires
        m is Cmd,
    ensures
        payload_text(m) == object_text(message_members(m)),
        m->Cmd_extra is None ==> member_keys(message_members(m)) == seq![
            "command"@,
            "time"@,
            "initiator"@,
        ],
        m->Cmd_extra is Some ==> member_keys(message_members(m)) == seq![
            "command"@,
            "time"@,
            "initiator"@,
            "pmap_id"@,
            "user_pmapv_id"@,
            "ordered"@,
            "regions"@,
        ],
{
    if m->Cmd_extra is None {
        assert(member_keys(message_members(m)) =~= seq!["command"@, "time"@, "initiator"@]);
    } else {
        assert(member_keys(message_members(m)) =~= seq![
            "command"@,
            "time"@,
            "initiator"@,
            "pmap_id"@,
            "user_pmapv_id"@,
            "ordered"@,
            "regions"@,
        ]);
    }
}

/// The `command` member of a serialized command holds a string literal with nothing escaped,
/// whose contents name that same command: `Command::from_json` reads it back as the command
/// that was sent.
pub proof fn lemma_command_round_trip(m: Message)
    requires
        m is Cmd,
    ensures
        message_members(m)[0].0 == "command"@,
        plain_literal(message_members(m)[0].1),
        command_of_tag(inner(message_members(m)[0].1)) == Some(m->Cmd_command),
{
    let c = m->Cmd_command;
    lemma_tags_plain(c);
    lemma_tag_round_trip(c);
    let v = message_members(m)[0].1;
    assert(v == quoted(command_tag(c)));
    assert(inner(v) =~= command_tag(c));
}

/// A longer run of digits never writes a smaller number than the run it extends.
proof fn lemma_digits_value_grows(d: Seq<char>, k: int)
    requires
        0 <= k <= d.len(),
    ensures
        all_digits(d) ==> digits_value(d) >= digits_value(d.take(k)),
    decreases d.len() - k,
{
    if k < d.len() && all_digits(d) {
        lemma_digits_value_grows(d, k + 1);
        assert(d.take(k + 1).drop_last() =~= d.take(k));
        assert(digit_value(d[k]) is Some);
    } else if k == d.len() {
        assert(d.take(k) =~= d);
    }
}

} // verus!
