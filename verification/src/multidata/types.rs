//! The value types that a seed holds.

use crate::multidata::collect::{collect, collect_stops};
use crate::multidata::error::{at_path, key_path, outcome, Error, Path, Problem};
use crate::multidata::extract::{
    bool_of, int_of, seq_of, str_of, tuple_of, u32_of, wrong_type, Extract,
};
use crate::multidata::pyobj::{instance_args, seq_model, seq_model_is_deep, Py, PyObj};
use crate::text::{dec, push_decimal};
use vstd::prelude::*;

verus! {

/// What a slot is.
#[derive(Debug, Clone, Copy, PartialEq, Eq, Structural)]
pub enum SlotType {
    Spectator,
    Player,
    Group,
}

/// The slot type with a number.
pub open spec fn slot_type_of(v: int, path: Seq<char>) -> Result<SlotType, Problem> {
    if v == 0 {
        Ok(SlotType::Spectator)
    } else if v == 1 {
        Ok(SlotType::Player)
    } else if v == 2 {
        Ok(SlotType::Group)
    } else {
        Err(Problem::Enum(path, "SlotType"@, v))
    }
}

impl DeepView for SlotType {
    type V = SlotType;

    open spec fn deep_view(&self) -> SlotType {
        *self
    }
}

impl SlotType {
    pub fn from_i64(v: i64, path: &Path) -> (r: Result<SlotType, Error>)
        ensures
            outcome(r) == slot_type_of(v as int, path@),
    {
        if v == 0 {
            Ok(SlotType::Spectator)
        } else if v == 1 {
            Ok(SlotType::Player)
        } else if v == 2 {
            Ok(SlotType::Group)
        } else {
            Err(Error::Enum { path: path.copied(), name: "SlotType", value: v })
        }
    }

    /// The number of the slot type.
    pub fn code(self) -> (r: u8)
        ensures
            slot_type_of(r as int, Seq::empty()) == Ok::<SlotType, Problem>(self),
    {
        match self {
            SlotType::Spectator => 0,
            SlotType::Player => 1,
            SlotType::Group => 2,
        }
    }

    /// Whether the slot counts as having reached its goal from the start: everything but a
    /// player does.
    pub fn always_goal(self) -> (r: bool)
        ensures
            r == (self != SlotType::Player),
    {
        self != SlotType::Player
    }
}

/// How far a client has come.
#[derive(Debug, Clone, Copy, PartialEq, Eq, PartialOrd, Ord, Structural)]
pub enum ClientStatus {
    Unknown,
    Connected,
    Ready,
    Playing,
    Goal,
}

/// The client status with a number.
pub open spec fn client_status_of(v: int, path: Seq<char>) -> Result<ClientStatus, Problem> {
    if v == 0 {
        Ok(ClientStatus::Unknown)
    } else if v == 5 {
        Ok(ClientStatus::Connected)
    } else if v == 10 {
        Ok(ClientStatus::Ready)
    } else if v == 20 {
        Ok(ClientStatus::Playing)
    } else if v == 30 {
        Ok(ClientStatus::Goal)
    } else {
        Err(Problem::Enum(path, "ClientStatus"@, v))
    }
}

impl DeepView for ClientStatus {
    type V = ClientStatus;

    open spec fn deep_view(&self) -> ClientStatus {
        *self
    }
}

/// The number of a client status.
pub open spec fn client_status_code(s: ClientStatus) -> u8 {
    match s {
        ClientStatus::Unknown => 0,
        ClientStatus::Connected => 5,
        ClientStatus::Ready => 10,
        ClientStatus::Playing => 20,
        ClientStatus::Goal => 30,
    }
}

impl ClientStatus {
    pub fn from_i64(v: i64, path: &Path) -> (r: Result<ClientStatus, Error>)
        ensures
            outcome(r) == client_status_of(v as int, path@),
    {
        if v == 0 {
            Ok(ClientStatus::Unknown)
        } else if v == 5 {
            Ok(ClientStatus::Connected)
        } else if v == 10 {
            Ok(ClientStatus::Ready)
        } else if v == 20 {
            Ok(ClientStatus::Playing)
        } else if v == 30 {
            Ok(ClientStatus::Goal)
        } else {
            Err(Error::Enum { path: path.copied(), name: "ClientStatus", value: v })
        }
    }

    /// The number of the status.
    pub fn code(self) -> (r: u8)
        ensures
            r == client_status_code(self),
            client_status_of(r as int, Seq::empty()) == Ok::<ClientStatus, Problem>(self),
    {
        match self {
            ClientStatus::Unknown => 0,
            ClientStatus::Connected => 5,
            ClientStatus::Ready => 10,
            ClientStatus::Playing => 20,
            ClientStatus::Goal => 30,
        }
    }
}

/// How a hint is ranked.
#[derive(Debug, Clone, Copy, PartialEq, Eq, Structural)]
pub enum HintStatus {
    Unspecified,
    NoPriority,
    Avoid,
    Priority,
    Found,
}

/// The hint status with a number.
pub open spec fn hint_status_of(v: int, path: Seq<char>) -> Result<HintStatus, Problem> {
    if v == 0 {
        Ok(HintStatus::Unspecified)
    } else if v == 10 {
        Ok(HintStatus::NoPriority)
    } else if v == 20 {
        Ok(HintStatus::Avoid)
    } else if v == 30 {
        Ok(HintStatus::Priority)
    } else if v == 40 {
        Ok(HintStatus::Found)
    } else {
        Err(Problem::Enum(path, "HintStatus"@, v))
    }
}

impl DeepView for HintStatus {
    type V = HintStatus;

    open spec fn deep_view(&self) -> HintStatus {
        *self
    }
}

/// The number of a hint status.
pub open spec fn hint_status_code(s: HintStatus) -> u8 {
    match s {
        HintStatus::Unspecified => 0,
        HintStatus::NoPriority => 10,
        HintStatus::Avoid => 20,
        HintStatus::Priority => 30,
        HintStatus::Found => 40,
    }
}

impl HintStatus {
    pub fn from_i64(v: i64, path: &Path) -> (r: Result<HintStatus, Error>)
        ensures
            outcome(r) == hint_status_of(v as int, path@),
    {
        if v == 0 {
            Ok(HintStatus::Unspecified)
        } else if v == 10 {
            Ok(HintStatus::NoPriority)
        } else if v == 20 {
            Ok(HintStatus::Avoid)
        } else if v == 30 {
            Ok(HintStatus::Priority)
        } else if v == 40 {
            Ok(HintStatus::Found)
        } else {
            Err(Error::Enum { path: path.copied(), name: "HintStatus", value: v })
        }
    }

    /// The number of the status.
    pub fn code(self) -> (r: u8)
        ensures
            r == hint_status_code(self),
            hint_status_of(r as int, Seq::empty()) == Ok::<HintStatus, Problem>(self),
    {
        match self {
            HintStatus::Unspecified => 0,
            HintStatus::NoPriority => 10,
            HintStatus::Avoid => 20,
            HintStatus::Priority => 30,
            HintStatus::Found => 40,
        }
    }
}

/// A slot of the seed.
#[derive(Debug, Clone, PartialEq, Eq)]
pub struct NetworkSlot {
    pub name: String,
    pub game: String,
    pub slot_type: SlotType,
    /// The members, of a group.
    pub group_members: Vec<u32>,
}

/// The model of a [`NetworkSlot`].
pub struct SlotModel {
    pub name: Seq<char>,
    pub game: Seq<char>,
    pub slot_type: SlotType,
    pub group_members: Seq<u32>,
}

impl DeepView for NetworkSlot {
    type V = SlotModel;

    open spec fn deep_view(&self) -> SlotModel {
        SlotModel {
            name: self.name@,
            game: self.game@,
            slot_type: self.slot_type,
            group_members: self.group_members@,
        }
    }
}

/// The number inside a slot type's instance.
pub open spec fn raw_slot_type(o: Py, path: Seq<char>) -> Result<i64, Problem> {
    match instance_args(o, "NetUtils"@, "SlotType"@) {
        Some(args) => if args.len() > 0 {
            int_of(args[0], path)
        } else {
            Err(wrong_type(o, path, "NetUtils.SlotType"@))
        },
        None => Err(wrong_type(o, path, "NetUtils.SlotType"@)),
    }
}

/// The items, each as an integer of 32 bits without a sign.
pub open spec fn u32_items(items: Seq<Py>, path: Seq<char>, n: nat) -> Result<Seq<u32>, Problem> {
    collect(items, |i: int, o: Py| u32_of(o, at_path(path, i)), n)
}

/// What a slot's instance says.
pub open spec fn slot_of(o: Py, path: Seq<char>) -> Result<SlotModel, Problem> {
    match instance_args(o, "NetUtils"@, "NetworkSlot"@) {
        None => Err(wrong_type(o, path, "NetUtils.NetworkSlot"@)),
        Some(args) => if args.len() != 4 {
            Err(Problem::Arity(path, 4, args.len() as int))
        } else {
            slot_of_args(args, path)
        },
    }
}

/// What the four arguments of a slot's instance say.
pub open spec fn slot_of_args(args: Seq<Py>, path: Seq<char>) -> Result<SlotModel, Problem> {
    let type_path = key_path(path, "type"@);
    let members_path = key_path(path, "group_members"@);
    match raw_slot_type(args[2], type_path) {
        Err(e) => Err(e),
        Ok(raw) => match seq_of(args[3], members_path) {
            Err(e) => Err(e),
            Ok(items) => match u32_items(items, members_path, items.len()) {
                Err(e) => Err(e),
                Ok(members) => match str_of(args[0], key_path(path, "name"@)) {
                    Err(e) => Err(e),
                    Ok(name) => match str_of(args[1], key_path(path, "game"@)) {
                        Err(e) => Err(e),
                        Ok(game) => match slot_type_of(raw as int, type_path) {
                            Err(e) => Err(e),
                            Ok(slot_type) => Ok(
                                SlotModel { name, game, slot_type, group_members: members },
                            ),
                        },
                    },
                },
            },
        },
    }
}

/// Reads all items as integers of 32 bits without a sign.
pub fn read_u32s(items: &Vec<PyObj>, path: &Path) -> (r: Result<Vec<u32>, Error>)
    ensures
        match u32_items(seq_model(items@), path@, items@.len()) {
            Ok(s) => r matches Ok(v) && v@ == s,
            Err(e) => r matches Err(x) && x@ == e,
        },
{
    let ghost model = seq_model(items@);
    let ghost f = |i: int, o: Py| u32_of(o, at_path(path@, i));
    let mut out: Vec<u32> = Vec::new();
    for i in 0..items.len()
        invariant
            model == seq_model(items@),
            f == (|i: int, o: Py| u32_of(o, at_path(path@, i))),
            collect(model, f, i as nat) == Ok::<Seq<u32>, Problem>(out@),
    {
        assert(model[i as int] == items@[i as int].model());
        match items[i].u32_(&path.index(i as u64)) {
            Ok(v) => {
                out.push(v);
            },
            Err(e) => {
                proof {
                    assert(collect(model, f, (i + 1) as nat) == Err::<Seq<u32>, Problem>(e@));
                    collect_stops(model, f, (i + 1) as nat, items@.len());
                }
                return Err(e);
            },
        }
    }
    Ok(out)
}

impl NetworkSlot {
    pub fn from_py(v: &PyObj, path: &Path) -> (r: Result<NetworkSlot, Error>)
        ensures
            outcome(r) == slot_of(v.model(), path@),
    {
        let args = match v.as_instance_of("NetUtils", "NetworkSlot") {
            Some(args) => args,
            None => {
                return Err(
                    Error::Type {
                        path: path.copied(),
                        expected: "NetUtils.NetworkSlot",
                        found: v.kind_name(),
                    },
                );
            },
        };
        if args.len() != 4 {
            return Err(Error::Arity { path: path.copied(), expected: 4, found: args.len() });
        }
        let ghost model = args.deep_view();
        assert(model[0] == args@[0].model() && model[1] == args@[1].model() && model[2]
            == args@[2].model() && model[3] == args@[3].model());
        let type_path = path.key("type");
        let raw: i64 = match raw_type(&args[2], &type_path) {
            Ok(raw) => raw,
            Err(e) => {
                return Err(e);
            },
        };
        let members_path = path.key("group_members");
        let items = match args[3].seq(&members_path) {
            Ok(items) => items,
            Err(e) => {
                return Err(e);
            },
        };
        proof {
            seq_model_is_deep(*items);
        }
        let group_members = match read_u32s(items, &members_path) {
            Ok(m) => m,
            Err(e) => {
                return Err(e);
            },
        };
        let name = match args[0].str_(&path.key("name")) {
            Ok(s) => s.clone(),
            Err(e) => {
                return Err(e);
            },
        };
        let game = match args[1].str_(&path.key("game")) {
            Ok(s) => s.clone(),
            Err(e) => {
                return Err(e);
            },
        };
        match SlotType::from_i64(raw, &type_path) {
            Ok(slot_type) => Ok(NetworkSlot { name, game, slot_type, group_members }),
            Err(e) => Err(e),
        }
    }

    /// A copy.
    pub fn dup(&self) -> (r: NetworkSlot)
        ensures
            r.deep_view() == self.deep_view(),
    {
        NetworkSlot {
            name: self.name.clone(),
            game: self.game.clone(),
            slot_type: self.slot_type,
            group_members: self.group_members.clone(),
        }
    }
}

/// The number inside a slot type's instance.
fn raw_type(o: &PyObj, path: &Path) -> (r: Result<i64, Error>)
    ensures
        outcome(r) == raw_slot_type(o.model(), path@),
{
    match o.as_instance_of("NetUtils", "SlotType") {
        Some(args) => {
            assert(args@.len() > 0 ==> args.deep_view()[0] == args@[0].model());
            if args.len() > 0 {
                return args[0].int_(path);
            }
        },
        None => {},
    }
    Err(Error::Type { path: path.copied(), expected: "NetUtils.SlotType", found: o.kind_name() })
}

/// An item as it is sent.
///
/// `player` is the sender, except in an answer about locations, where it is the receiver.
#[derive(Debug, Clone, Copy, PartialEq, Eq, Structural)]
pub struct NetworkItem {
    pub item: i64,
    pub location: i64,
    pub player: u32,
    pub flags: u32,
}

/// A hint.
#[derive(Debug, Clone, PartialEq, Eq)]
pub struct Hint {
    pub receiving_player: u32,
    pub finding_player: u32,
    pub location: i64,
    pub item: i64,
    pub found: bool,
    pub entrance: String,
    pub item_flags: u32,
    pub status: HintStatus,
}

/// The model of a [`Hint`].
pub struct HintModel {
    pub receiving_player: u32,
    pub finding_player: u32,
    pub location: i64,
    pub item: i64,
    pub found: bool,
    pub entrance: Seq<char>,
    pub item_flags: u32,
    pub status: HintStatus,
}

impl DeepView for Hint {
    type V = HintModel;

    open spec fn deep_view(&self) -> HintModel {
        HintModel {
            receiving_player: self.receiving_player,
            finding_player: self.finding_player,
            location: self.location,
            item: self.item,
            found: self.found,
            entrance: self.entrance@,
            item_flags: self.item_flags,
            status: self.status,
        }
    }
}

/// The fields by which two hints are the same.
#[derive(Debug, Clone, PartialEq, Eq, Hash)]
pub struct HintIdentity {
    pub receiving_player: u32,
    pub finding_player: u32,
    pub location: i64,
    pub item: i64,
    pub entrance: String,
}

/// The model of a [`HintIdentity`].
pub struct IdentityModel {
    pub receiving_player: u32,
    pub finding_player: u32,
    pub location: i64,
    pub item: i64,
    pub entrance: Seq<char>,
}

impl DeepView for HintIdentity {
    type V = IdentityModel;

    open spec fn deep_view(&self) -> IdentityModel {
        IdentityModel {
            receiving_player: self.receiving_player,
            finding_player: self.finding_player,
            location: self.location,
            item: self.item,
            entrance: self.entrance@,
        }
    }
}

/// The identity of a hint.
pub open spec fn identity_of(h: HintModel) -> IdentityModel {
    IdentityModel {
        receiving_player: h.receiving_player,
        finding_player: h.finding_player,
        location: h.location,
        item: h.item,
        entrance: h.entrance,
    }
}

/// Changing what was found, the flags or the status of a hint keeps its identity.
pub proof fn identity_ignores_progress(
    h: HintModel,
    found: bool,
    item_flags: u32,
    status: HintStatus,
)
    ensures
        identity_of(HintModel { found, item_flags, status, ..h }) == identity_of(h),
{
}

/// The status that a hint's last argument says, an instance or a plain integer.
pub open spec fn status_of(o: Py, path: Seq<char>) -> Result<HintStatus, Problem> {
    let raw = match instance_args(o, "NetUtils"@, "HintStatus"@) {
        Some(args) => if args.len() > 0 {
            int_of(args[0], path)
        } else {
            int_of(o, path)
        },
        None => int_of(o, path),
    };
    match raw {
        Ok(v) => hint_status_of(v as int, path),
        Err(e) => Err(e),
    }
}

/// What a hint's instance says. Seeds of older generators have no status.
pub open spec fn hint_of(o: Py, path: Seq<char>) -> Result<HintModel, Problem> {
    match instance_args(o, "NetUtils"@, "Hint"@) {
        None => Err(wrong_type(o, path, "NetUtils.Hint"@)),
        Some(args) => if !(7 <= args.len() <= 8) {
            Err(Problem::Arity(path, 8, args.len() as int))
        } else {
            let status = if args.len() == 8 {
                status_of(args[7], key_path(path, "status"@))
            } else {
                Ok(HintStatus::Unspecified)
            };
            match status {
                Err(e) => Err(e),
                Ok(status) => hint_of_args(args, path, status),
            }
        },
    }
}

/// What the first seven arguments of a hint's instance say.
pub open spec fn hint_of_args(args: Seq<Py>, path: Seq<char>, status: HintStatus) -> Result<
    HintModel,
    Problem,
> {
    match u32_of(args[0], key_path(path, "receiving_player"@)) {
        Err(e) => Err(e),
        Ok(receiving_player) => match u32_of(args[1], key_path(path, "finding_player"@)) {
            Err(e) => Err(e),
            Ok(finding_player) => match int_of(args[2], key_path(path, "location"@)) {
                Err(e) => Err(e),
                Ok(location) => match int_of(args[3], key_path(path, "item"@)) {
                    Err(e) => Err(e),
                    Ok(item) => match bool_of(args[4], key_path(path, "found"@)) {
                        Err(e) => Err(e),
                        Ok(found) => match str_of(args[5], key_path(path, "entrance"@)) {
                            Err(e) => Err(e),
                            Ok(entrance) => match u32_of(args[6], key_path(path, "item_flags"@)) {
                                Err(e) => Err(e),
                                Ok(item_flags) => Ok(
                                    HintModel {
                                        receiving_player,
                                        finding_player,
                                        location,
                                        item,
                                        found,
                                        entrance,
                                        item_flags,
                                        status,
                                    },
                                ),
                            },
                        },
                    },
                },
            },
        },
    }
}

/// The status that a hint's last argument says.
fn read_status(o: &PyObj, path: &Path) -> (r: Result<HintStatus, Error>)
    ensures
        outcome(r) == status_of(o.model(), path@),
{
    let mut raw = o.int_(path);
    if let Some(args) = o.as_instance_of("NetUtils", "HintStatus") {
        assert(args@.len() > 0 ==> args.deep_view()[0] == args@[0].model());
        if args.len() > 0 {
            raw = args[0].int_(path);
        }
    }
    match raw {
        Ok(v) => HintStatus::from_i64(v, path),
        Err(e) => Err(e),
    }
}

impl Hint {
    pub fn identity(&self) -> (r: HintIdentity)
        ensures
            r.deep_view() == identity_of(self.deep_view()),
    {
        HintIdentity {
            receiving_player: self.receiving_player,
            finding_player: self.finding_player,
            location: self.location,
            item: self.item,
            entrance: self.entrance.clone(),
        }
    }

    pub fn from_py(v: &PyObj, path: &Path) -> (r: Result<Hint, Error>)
        ensures
            outcome(r) == hint_of(v.model(), path@),
    {
        let args = match v.as_instance_of("NetUtils", "Hint") {
            Some(args) => args,
            None => {
                return Err(
                    Error::Type {
                        path: path.copied(),
                        expected: "NetUtils.Hint",
                        found: v.kind_name(),
                    },
                );
            },
        };
        if args.len() < 7 || args.len() > 8 {
            return Err(Error::Arity { path: path.copied(), expected: 8, found: args.len() });
        }
        let ghost model = args.deep_view();
        assert(forall|i: int| 0 <= i < args@.len() ==> #[trigger] model[i] == args@[i].model());
        let status: HintStatus = if args.len() == 8 {
            match read_status(&args[7], &path.key("status")) {
                Ok(s) => s,
                Err(e) => {
                    return Err(e);
                },
            }
        } else {
            HintStatus::Unspecified
        };
        let receiving_player: u32 = match args[0].u32_(&path.key("receiving_player")) {
            Ok(n) => n,
            Err(e) => {
                return Err(e);
            },
        };
        let finding_player: u32 = match args[1].u32_(&path.key("finding_player")) {
            Ok(n) => n,
            Err(e) => {
                return Err(e);
            },
        };
        let location: i64 = match args[2].int_(&path.key("location")) {
            Ok(n) => n,
            Err(e) => {
                return Err(e);
            },
        };
        let item: i64 = match args[3].int_(&path.key("item")) {
            Ok(n) => n,
            Err(e) => {
                return Err(e);
            },
        };
        let found: bool = match args[4].bool_(&path.key("found")) {
            Ok(b) => b,
            Err(e) => {
                return Err(e);
            },
        };
        let entrance = match args[5].str_(&path.key("entrance")) {
            Ok(s) => s.clone(),
            Err(e) => {
                return Err(e);
            },
        };
        let item_flags: u32 = match args[6].u32_(&path.key("item_flags")) {
            Ok(n) => n,
            Err(e) => {
                return Err(e);
            },
        };
        Ok(
            Hint {
                receiving_player,
                finding_player,
                location,
                item,
                found,
                entrance,
                item_flags,
                status,
            },
        )
    }
}

/// A version.
#[derive(Debug, Clone, Copy, PartialEq, Eq, PartialOrd, Ord, Structural)]
pub struct Version {
    pub major: u32,
    pub minor: u32,
    pub build: u32,
}

impl DeepView for Version {
    type V = Version;

    open spec fn deep_view(&self) -> Version {
        *self
    }
}

/// Whether a version is older than another.
pub open spec fn older(a: Version, b: Version) -> bool {
    a.major < b.major || (a.major == b.major && (a.minor < b.minor || (a.minor == b.minor && a.build
        < b.build)))
}

/// The newer of two versions.
pub open spec fn newer(a: Version, b: Version) -> Version {
    if older(a, b) {
        b
    } else {
        a
    }
}

/// The text of a version.
pub open spec fn version_text(v: Version) -> Seq<char> {
    dec(v.major as nat) + "."@ + dec(v.minor as nat) + "."@ + dec(v.build as nat)
}

/// What a triple says as a version.
pub open spec fn version_of(o: Py, path: Seq<char>) -> Result<Version, Problem> {
    match tuple_of(o, path, 3) {
        Err(e) => Err(e),
        Ok(parts) => match u32_of(parts[0], at_path(path, 0)) {
            Err(e) => Err(e),
            Ok(major) => match u32_of(parts[1], at_path(path, 1)) {
                Err(e) => Err(e),
                Ok(minor) => match u32_of(parts[2], at_path(path, 2)) {
                    Err(e) => Err(e),
                    Ok(build) => Ok(Version { major, minor, build }),
                },
            },
        },
    }
}

impl Version {
    pub fn new(major: u32, minor: u32, build: u32) -> (r: Version)
        ensures
            r == (Version { major, minor, build }),
    {
        Version { major, minor, build }
    }

    /// Whether this version is older than another.
    pub fn is_older(self, other: Version) -> (r: bool)
        ensures
            r == older(self, other),
    {
        self.major < other.major || (self.major == other.major && (self.minor < other.minor || (
        self.minor == other.minor && self.build < other.build)))
    }

    /// The text.
    pub fn to_text(self) -> (r: String)
        ensures
            r@ == version_text(self),
    {
        let mut s = String::new();
        push_decimal(&mut s, self.major as u64);
        s.append(".");
        push_decimal(&mut s, self.minor as u64);
        s.append(".");
        push_decimal(&mut s, self.build as u64);
        assert(s@ =~= version_text(self));
        s
    }

    pub fn from_py(v: &PyObj, path: &Path) -> (r: Result<Version, Error>)
        ensures
            outcome(r) == version_of(v.model(), path@),
    {
        let parts = match v.tuple_n(path, 3) {
            Ok(parts) => parts,
            Err(e) => {
                return Err(e);
            },
        };
        let ghost model = parts.deep_view();
        assert(model[0] == parts@[0].model() && model[1] == parts@[1].model() && model[2]
            == parts@[2].model());
        let major: u32 = match parts[0].u32_(&path.index(0)) {
            Ok(n) => n,
            Err(e) => {
                return Err(e);
            },
        };
        let minor: u32 = match parts[1].u32_(&path.index(1)) {
            Ok(n) => n,
            Err(e) => {
                return Err(e);
            },
        };
        match parts[2].u32_(&path.index(2)) {
            Ok(build) => Ok(Version { major, minor, build }),
            Err(e) => Err(e),
        }
    }
}

/// Versions are totally ordered.
pub proof fn versions_are_ordered(a: Version, b: Version, c: Version)
    ensures
        !older(a, a),
        older(a, b) && older(b, c) ==> older(a, c),
        a == b || older(a, b) || older(b, a),
{
}

} // verus!
