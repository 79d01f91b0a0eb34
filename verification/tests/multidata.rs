use pahoa::multidata::datapackage::{DataPackage, GamePackage};
use pahoa::multidata::error::{Error, Path};
use pahoa::multidata::extract::Extract;
use pahoa::multidata::hint_blacklist::{for_game, listed_games};
use pahoa::multidata::item_flags;
use pahoa::multidata::locations::{LocationEntry, LocationStore};
use pahoa::multidata::multidata::{
    cap_pickle, server_version, MultiData, MAX_PICKLE_BYTES, MAX_PRECOLLECTED_ITEMS, ONLY_TEAM,
};
use pahoa::multidata::pyobj::{ClassId, PyObj};
use pahoa::multidata::types::{ClientStatus, Hint, HintStatus, NetworkSlot, SlotType, Version};
use pahoa::table::{Mark, Table};

fn table(items: &[(&str, i64)]) -> Table<String, i64> {
    let mut t = Table::new();
    for (name, id) in items {
        t = t.with(name.to_string(), *id);
    }
    t
}

fn set(names: &[&str]) -> Table<String, Mark> {
    let mut t = Table::new();
    for name in names {
        t = t.with(name.to_string(), Mark {});
    }
    t
}

fn pkg(items: &[(&str, i64)], blacklist: &[&str]) -> GamePackage {
    GamePackage {
        item_name_to_id: table(items),
        hint_blacklist: set(blacklist),
        ..Default::default()
    }
}

fn needed(games: &[&str]) -> Table<String, Mark> {
    set(games)
}

fn embedded(games: Vec<(&str, GamePackage)>) -> Table<String, GamePackage> {
    let mut t = Table::new();
    for (name, package) in games {
        t = t.with(name.to_string(), package);
    }
    t
}

#[test]
fn the_embedded_package_is_the_source_of_names() {
    let embedded = embedded(vec![("G", pkg(&[("New", 2)], &[]))]);
    let (dp, report) = DataPackage::merge(&embedded, &needed(&["G"]));

    assert_eq!(dp.get("G").unwrap().item_id("New"), Some(2));
    assert_eq!(report.from_multidata, ["G"]);
    assert!(report.unresolved.is_empty());
}

#[test]
fn the_built_in_hint_blacklist_is_grafted_onto_embedded_data() {
    let embedded = embedded(vec![(
        "A Link to the Past",
        pkg(&[("Triforce", 1), ("Bow", 2)], &[]),
    )]);
    let (dp, _) = DataPackage::merge(&embedded, &needed(&["A Link to the Past"]));

    let g = dp.get("A Link to the Past").unwrap();
    assert!(!g.is_hintable("Triforce"), "the built-in entry was not applied");
    assert!(g.is_hintable("Bow"));
}

#[test]
fn an_embedded_blacklist_does_not_displace_the_built_in_one() {
    let embedded = embedded(vec![(
        "A Link to the Past",
        pkg(&[("Triforce", 1), ("Bow", 2)], &["Bow"]),
    )]);
    let (dp, _) = DataPackage::merge(&embedded, &needed(&["A Link to the Past"]));

    let g = dp.get("A Link to the Past").unwrap();
    assert!(!g.is_hintable("Triforce"));
    assert!(g.is_hintable("Bow"), "a seed dictated the blacklist");
}

#[test]
fn a_game_with_no_built_in_entry_hints_everything() {
    let embedded = embedded(vec![("Balatro", pkg(&[("Joker", 1)], &[]))]);
    let (dp, report) = DataPackage::merge(&embedded, &needed(&["Balatro"]));

    assert!(dp.get("Balatro").unwrap().is_hintable("Joker"));
    assert!(report.unresolved.is_empty());
}

#[test]
fn a_webhost_stripped_stub_is_reported_as_unresolved() {
    let stub = GamePackage {
        checksum: Some("abc".into()),
        ..Default::default()
    };
    assert!(stub.is_stub());
    let embedded = embedded(vec![("G", stub)]);
    let (dp, report) = DataPackage::merge(&embedded, &needed(&["G"]));

    assert_eq!(report.unresolved, ["G"]);
    assert_eq!(dp.get("G").unwrap().item_name(42), "Unknown item (ID:42)");
}

#[test]
fn unresolved_games_still_load_with_unknown_name_fallbacks() {
    let (dp, report) = DataPackage::merge(&Table::new(), &needed(&["Mystery"]));
    assert_eq!(report.unresolved, ["Mystery"]);
    assert_eq!(dp.get("Mystery").unwrap().item_name(42), "Unknown item (ID:42)");
    assert_eq!(dp.get("Mystery").unwrap().location_name(7), "Unknown location (ID:7)");
}

#[test]
fn drops_embedded_games_the_seed_does_not_use() {
    let embedded = embedded(vec![
        ("Used", pkg(&[("A", 1)], &[])),
        ("Unused", pkg(&[("B", 2)], &[])),
    ]);
    let (dp, _) = DataPackage::merge(&embedded, &needed(&["Used"]));
    assert_eq!(dp.len(), 1);
    assert!(dp.get("Unused").is_none());
}

#[test]
fn checksums_omit_games_that_have_none() {
    let with = GamePackage {
        checksum: Some("aaa".into()),
        ..pkg(&[("A", 1)], &[])
    };
    let without = pkg(&[("B", 2)], &[]);
    let embedded = embedded(vec![("W", with), ("N", without)]);
    let (dp, _) = DataPackage::merge(&embedded, &needed(&["W", "N"]));

    let sums = dp.checksums();
    assert_eq!(sums.iter().find(|(k, _)| k == "W").map(|(_, v)| v.as_str()), Some("aaa"));
    assert!(!sums.iter().any(|(k, _)| k == "N"));
}

#[test]
fn resolves_names_in_both_directions() {
    let (dp, _) =
        DataPackage::merge(&embedded(vec![("G", pkg(&[("Sword", 5)], &[]))]), &needed(&["G"]));
    let g = dp.get("G").unwrap();
    assert_eq!(g.item_id("Sword"), Some(5));
    assert_eq!(g.item_name(5), "Sword");
}

/// Every game also gets the names of the server's own game, where it has them.
#[test]
fn the_servers_own_names_reach_every_game() {
    let mut own = pkg(&[("Nothing", -1)], &[]);
    own.location_name_to_id = table(&[("Cheat Console", -1), ("Server", -2)]);
    let embedded =
        embedded(vec![("Archipelago", own), ("G", pkg(&[("Sword", 5)], &[]))]);
    let (dp, report) = DataPackage::merge(&embedded, &needed(&["Archipelago", "G"]));
    let g = dp.get("G").unwrap();
    assert_eq!(g.item_name(5), "Sword");
    assert_eq!(g.item_name(-1), "Nothing");
    assert_eq!(g.location_name(-2), "Server");
    assert_eq!(g.item_id("Nothing"), None);
    assert_eq!(g.location_id("Server"), None);
    assert_eq!(report.from_multidata, ["Archipelago", "G"]);
    assert_eq!(dp.games().len(), 2);
    assert!(!dp.is_empty());
}

#[test]
fn group_names_stand_beside_item_names() {
    let mut p = pkg(&[("Sword", 5), ("Bow", 6)], &[]);
    p.item_name_groups = Table::new()
        .with("Weapons".to_string(), vec!["Sword".to_string(), "Bow".to_string()])
        .with("Bow".to_string(), vec!["Bow".to_string()]);
    let (dp, _) = DataPackage::merge(&embedded(vec![("G", p)]), &needed(&["G"]));
    let mut names = dp.get("G").unwrap().item_and_group_names();
    names.sort();
    assert_eq!(names, ["Bow", "Sword", "Weapons"]);
    assert!(dp.get("G").unwrap().location_and_group_names().is_empty());
}

#[test]
fn reports_the_path_of_a_type_error() {
    let v = PyObj::Int(3);
    let err = v.str_(&Path::root().key("slot_info").index(3).key("game")).unwrap_err();
    assert_eq!(err.message(), "slot_info[3].game: expected str, found int");
}

#[test]
fn reports_missing_keys_with_their_path() {
    let v = PyObj::Dict(vec![]);
    let err = v.at(&Path::root(), "seed_name").unwrap_err();
    assert_eq!(err.message(), "seed_name: missing required key");
}

#[test]
fn accepts_python_int_bools() {
    let p = Path::root();
    assert!(!PyObj::Int(0).bool_(&p).unwrap());
    assert!(PyObj::Int(1).bool_(&p).unwrap());
    assert!(PyObj::Bool(true).bool_(&p).unwrap());
    assert!(PyObj::Int(2).bool_(&p).is_err());
}

#[test]
fn arity_errors_name_both_counts() {
    let v = PyObj::Tuple(vec![PyObj::Int(1), PyObj::Int(2)]);
    let err = v.tuple_n(&Path::root().key("locations"), 3).unwrap_err();
    assert_eq!(err.message(), "locations: expected 3, found a 2-element tuple");
}

#[test]
fn the_two_worlds_that_set_one_are_present() {
    assert_eq!(for_game("A Link to the Past"), ["Triforce"]);
    assert_eq!(for_game("Castlevania - Circle of the Moon"), ["Battle Arena: End reward"]);
}

#[test]
fn an_unlisted_game_blacklists_nothing() {
    assert!(for_game("Balatro").is_empty());
    assert!(for_game("a game that does not exist").is_empty());
}

#[test]
fn the_table_is_sorted_by_game() {
    let names: Vec<&str> = listed_games();
    let mut sorted = names.clone();
    sorted.sort_unstable();
    assert_eq!(names, sorted);
}

fn store(spec: &[(u32, i64, i64, u32, u32)]) -> LocationStore {
    let max = spec.iter().map(|s| s.0).max().unwrap_or(0);
    let entries =
        spec.iter().map(|&(s, l, i, r, f)| LocationEntry::new(s, l, i, r, f)).collect();
    LocationStore::from_entries(entries, max)
}

#[test]
fn entry_is_thirty_two_bytes() {
    assert_eq!(std::mem::size_of::<LocationEntry>(), 32);
    assert_eq!(std::mem::align_of::<LocationEntry>(), 8);
}

#[test]
fn groups_and_sorts_by_slot_then_location() {
    let s = store(&[(2, 30, 1, 1, 0), (1, 20, 2, 2, 0), (1, 10, 3, 3, 0), (2, 5, 4, 4, 0)]);
    assert_eq!(s.for_slot(1).iter().map(|e| e.location).collect::<Vec<_>>(), [10, 20]);
    assert_eq!(s.for_slot(2).iter().map(|e| e.location).collect::<Vec<_>>(), [5, 30]);
    assert_eq!(s.all().len(), 4);
    assert_eq!(s.len(), 4);
    assert_eq!(s.max_slot(), 2);
}

#[test]
fn the_highest_slot_is_one_with_locations() {
    let s = LocationStore::from_entries(vec![LocationEntry::new(1, 10, 77, 1, 0)], 3);
    assert_eq!(s.max_slot(), 1);
    assert!(s.validate().is_err(), "the slots that the table is for and have nothing");
    assert_eq!(LocationStore::from_entries(vec![], 3).max_slot(), 0);
}

#[test]
fn looks_up_by_slot_and_location() {
    let s = store(&[(1, 10, 111, 2, 0b001), (1, 20, 222, 3, 0b100)]);
    let e = s.get(1, 20).unwrap();
    assert_eq!((e.item, e.receiver, e.flags), (222, 3, 0b100));
    assert!(s.get(1, 15).is_none(), "unknown location");
    assert!(s.get(9, 10).is_none(), "unknown slot");
    assert!(s.contains(1, 10));
    assert!(!s.contains(1, 11));
}

#[test]
fn unknown_slots_yield_empty_rather_than_panicking() {
    let s = store(&[(1, 10, 1, 1, 0)]);
    assert!(s.for_slot(0).is_empty());
    assert!(s.for_slot(500).is_empty());
    assert_eq!(s.count_for(500), 0);
}

#[test]
fn validate_rejects_slot_id_gaps() {
    let s = store(&[(1, 10, 1, 1, 0), (3, 10, 1, 1, 0)]);
    let err = s.validate().unwrap_err().message();
    assert!(err.contains("slot 2"), "{err}");
}

#[test]
fn validate_rejects_duplicate_locations() {
    let s = store(&[(1, 10, 1, 1, 0), (1, 10, 2, 2, 0)]);
    let err = s.validate().unwrap_err().message();
    assert!(err.contains("more than once"), "{err}");
}

#[test]
fn validate_accepts_a_well_formed_table() {
    let s = store(&[(1, 10, 1, 2, 0), (1, 11, 2, 2, 0), (2, 10, 3, 1, 0)]);
    s.validate().unwrap();
}

#[test]
fn binary_search_finds_every_entry_in_a_large_slot() {
    let entries: Vec<_> =
        (0..10_000).map(|i| LocationEntry::new(1, i * 7, i, 1, 0)).collect();
    let s = LocationStore::from_entries(entries, 1);
    for i in 0..10_000i64 {
        assert_eq!(s.get(1, i * 7).map(|e| e.item), Some(i));
        assert!(s.get(1, i * 7 + 1).is_none());
    }
}

fn slot_py(name: &str, game: &str, ty: i64, members: Vec<PyObj>) -> PyObj {
    PyObj::Instance {
        class: ClassId::new("NetUtils", "NetworkSlot"),
        args: vec![
            PyObj::Str(name.into()),
            PyObj::Str(game.into()),
            PyObj::Instance {
                class: ClassId::new("NetUtils", "SlotType"),
                args: vec![PyObj::Int(ty)],
            },
            PyObj::Tuple(members),
        ],
    }
}

#[test]
fn decodes_a_player_slot() {
    let s =
        NetworkSlot::from_py(&slot_py("Alice", "Timespinner", 1, vec![]), &Path::root()).unwrap();
    assert_eq!(s.name, "Alice");
    assert_eq!(s.slot_type, SlotType::Player);
    assert!(s.group_members.is_empty());
    assert!(!s.slot_type.always_goal());
}

#[test]
fn decodes_a_group_slot_with_members() {
    let s = slot_py("Item Link", "Archipelago", 2, vec![PyObj::Int(1), PyObj::Int(4)]);
    let s = NetworkSlot::from_py(&s, &Path::root()).unwrap();
    assert_eq!(s.slot_type, SlotType::Group);
    assert_eq!(s.group_members, [1, 4]);
    assert!(s.slot_type.always_goal());
}

#[test]
fn spectators_are_goal_complete_but_players_are_not() {
    assert!(SlotType::Spectator.always_goal());
    assert!(SlotType::Group.always_goal());
    assert!(!SlotType::Player.always_goal());
}

#[test]
fn rejects_an_unknown_slot_type_with_context() {
    let err = NetworkSlot::from_py(&slot_py("x", "y", 7, vec![]), &Path::root().key("slot_info"))
        .unwrap_err();
    assert_eq!(err.message(), "slot_info.type: 7 is not a valid SlotType");
}

fn hint_py(args: Vec<PyObj>) -> PyObj {
    PyObj::Instance { class: ClassId::new("NetUtils", "Hint"), args }
}

#[test]
fn decodes_a_hint_with_status() {
    let h = hint_py(vec![
        PyObj::Int(1),
        PyObj::Int(2),
        PyObj::Int(100),
        PyObj::Int(200),
        PyObj::Bool(false),
        PyObj::Str("".into()),
        PyObj::Int(0b001),
        PyObj::Instance {
            class: ClassId::new("NetUtils", "HintStatus"),
            args: vec![PyObj::Int(30)],
        },
    ]);
    let h = Hint::from_py(&h, &Path::root()).unwrap();
    assert_eq!(h.status, HintStatus::Priority);
    assert_eq!(h.item_flags, item_flags::ADVANCEMENT);
}

#[test]
fn accepts_pre_status_hints_from_older_generations() {
    let h = hint_py(vec![
        PyObj::Int(1),
        PyObj::Int(2),
        PyObj::Int(100),
        PyObj::Int(200),
        PyObj::Bool(true),
        PyObj::Str("Door".into()),
        PyObj::Int(0),
    ]);
    let h = Hint::from_py(&h, &Path::root()).unwrap();
    assert_eq!(h.status, HintStatus::Unspecified);
    assert_eq!(h.entrance, "Door");
}

#[test]
fn hint_identity_ignores_status_and_found() {
    let base = Hint {
        receiving_player: 1,
        finding_player: 2,
        location: 3,
        item: 4,
        found: false,
        entrance: "E".into(),
        item_flags: 0,
        status: HintStatus::Unspecified,
    };
    let updated = Hint {
        found: true,
        item_flags: 4,
        status: HintStatus::Found,
        ..base.clone()
    };
    assert_ne!(base, updated);
    assert_eq!(base.identity(), updated.identity());
}

#[test]
fn trap_flag_drives_the_only_classification_the_server_reads() {
    assert!(item_flags::is_trap(item_flags::TRAP));
    assert!(item_flags::is_trap(item_flags::TRAP | item_flags::ADVANCEMENT));
    assert!(!item_flags::is_trap(item_flags::USEFUL));
}

#[test]
fn versions_order_naturally() {
    assert!(Version::new(0, 5, 0) < Version::new(0, 6, 8));
    assert!(Version::new(0, 6, 2) < Version::new(0, 6, 10));
    assert!(Version::new(0, 6, 2).is_older(Version::new(0, 6, 10)));
    assert!(!Version::new(0, 6, 10).is_older(Version::new(0, 6, 10)));
    assert_eq!(Version::new(0, 6, 8).to_text(), "0.6.8");
}

#[test]
fn codes_are_read_back() {
    let p = Path::root();
    for s in [SlotType::Spectator, SlotType::Player, SlotType::Group] {
        assert_eq!(SlotType::from_i64(s.code() as i64, &p).unwrap(), s);
    }
    for s in [
        ClientStatus::Unknown,
        ClientStatus::Connected,
        ClientStatus::Ready,
        ClientStatus::Playing,
        ClientStatus::Goal,
    ] {
        assert_eq!(ClientStatus::from_i64(s.code() as i64, &p).unwrap(), s);
    }
    assert_eq!(ClientStatus::Goal.code(), 30);
    assert_eq!(HintStatus::Avoid.code(), 20);
    assert_eq!(
        HintStatus::from_i64(7, &p).unwrap_err().message(),
        "<root>: 7 is not a valid HintStatus"
    );
}

fn one_slot() -> Table<u32, NetworkSlot> {
    Table::new().with(
        1,
        NetworkSlot {
            name: "Troy".to_string(),
            game: "A Link to the Past".to_string(),
            slot_type: SlotType::Player,
            group_members: Vec::new(),
        },
    )
}

fn seed(team: u32) -> MultiData {
    MultiData {
        seed_name: "teams".to_string(),
        generator_version: Version::new(0, 6, 2),
        minimum_server_version: Version::new(0, 1, 6),
        minimum_client_versions: Table::new(),
        slot_info: one_slot(),
        connect_names: Table::new().with("Troy".to_string(), (team, 1)),
        locations: LocationStore::from_entries(vec![LocationEntry::new(1, 10, 77, 1, 0)], 1),
        precollected_items: Table::new(),
        precollected_hints: Table::new(),
        er_hint_data: Table::new(),
        spheres: Vec::new(),
        race_mode: false,
        slot_data: Table::new(),
        server_options: None,
        embedded_datapackage: Table::new(),
    }
}

#[test]
fn a_seed_on_another_team_is_refused_rather_than_half_served() {
    seed(ONLY_TEAM)
        .validate(Version::new(0, 6, 7))
        .expect("team 0 is the team this server serves");

    let refused = seed(1).validate(Version::new(0, 6, 7)).unwrap_err().message();
    assert!(
        refused.contains("team 1") && refused.contains("one team"),
        "should name the team and the limit: {refused}"
    );
}

#[test]
fn a_seed_for_a_newer_server_is_refused() {
    let mut s = seed(ONLY_TEAM);
    s.minimum_server_version = Version::new(0, 7, 0);
    assert!(s.validate(server_version()).is_err());
    assert!(s.validate(Version::new(0, 7, 0)).is_ok());
}

#[test]
fn a_seed_says_who_plays_in_it() {
    let s = seed(ONLY_TEAM);
    assert_eq!(s.teams(), [ONLY_TEAM]);
    assert_eq!(s.team_slots(), [(0, 1)]);
    assert_eq!(s.player_slots().len(), 1);
    assert_eq!(s.connectable_slots().len(), 1);
    let games = s.games();
    assert_eq!(games.len(), 2);
    assert!(games.contains_key(&"Archipelago".to_string()));
    let (dp, report) = s.resolve_datapackage();
    assert_eq!(report.unresolved, ["A Link to the Past", "Archipelago"]);
    assert!(!dp.get("A Link to the Past").unwrap().is_hintable("Triforce"));
}

fn s(text: &str) -> PyObj {
    PyObj::Str(text.into())
}

fn dict(pairs: Vec<(PyObj, PyObj)>) -> PyObj {
    PyObj::Dict(pairs)
}

fn version(major: i64, minor: i64, build: i64) -> PyObj {
    PyObj::Tuple(vec![PyObj::Int(major), PyObj::Int(minor), PyObj::Int(build)])
}

fn multidata_granting(granted: usize) -> PyObj {
    let slot = PyObj::Instance {
        class: ClassId::new("NetUtils", "NetworkSlot"),
        args: vec![
            s("P"),
            s("G"),
            PyObj::Instance {
                class: ClassId::new("NetUtils", "SlotType"),
                args: vec![PyObj::Int(1)],
            },
            PyObj::Tuple(vec![]),
        ],
    };
    dict(vec![
        (s("seed_name"), s("minimal")),
        (s("version"), version(0, 6, 7)),
        (s("minimum_versions"), dict(vec![(s("server"), version(0, 1, 6))])),
        (s("slot_info"), dict(vec![(PyObj::Int(1), slot)])),
        (
            s("connect_names"),
            dict(vec![(s("P"), PyObj::Tuple(vec![PyObj::Int(0), PyObj::Int(1)]))]),
        ),
        (s("locations"), dict(vec![(PyObj::Int(1), dict(vec![]))])),
        (
            s("precollected_items"),
            dict(vec![(
                PyObj::Int(1),
                PyObj::List((0..granted).map(|_| PyObj::Int(0)).collect()),
            )]),
        ),
    ])
}

#[test]
fn the_start_inventory_cap_refuses_by_name() {
    let ok = MultiData::from_py(&multidata_granting(64))
        .expect("an ordinary start inventory must still load");
    assert_eq!(ok.precollected_items.get(&1).unwrap().len(), 64);

    let over = MAX_PRECOLLECTED_ITEMS + 1;
    let outcome = MultiData::from_py(&multidata_granting(over)).map(|_| ());
    let err = outcome.expect_err("a room should never be asked to load this many");
    assert!(
        err.message().contains("precollected"),
        "expected the start-inventory cap to fire, got: {}",
        err.message()
    );
}

fn zlib(bytes: &[u8]) -> Vec<u8> {
    let mut encoder = flate2::write::ZlibEncoder::new(Vec::new(), flate2::Compression::best());
    std::io::Write::write_all(&mut encoder, bytes).expect("encodes");
    encoder.finish().expect("finishes")
}

#[test]
fn the_inflate_cap_refuses_a_bomb_before_decoding_anything() {
    let over = MAX_PICKLE_BYTES as usize + 1024;
    let mut file = vec![3u8]; // format byte
    let mut encoder = flate2::write::ZlibEncoder::new(Vec::new(), flate2::Compression::best());
    // Zeros, so this compresses to a few kilobytes, which is the whole point of a bomb.
    let chunk = vec![0u8; 1 << 20];
    let mut written = 0;
    while written < over {
        let n = chunk.len().min(over - written);
        std::io::Write::write_all(&mut encoder, &chunk[..n]).expect("encodes");
        written += n;
    }
    file.extend(encoder.finish().expect("finishes"));

    assert!(
        file.len() < 200_000,
        "the bomb should be tiny on disk; got {} bytes",
        file.len()
    );

    let err = MultiData::parse(&file, |_| unreachable!("nothing may be decoded"))
        .expect_err("a 64 MiB inflate must be refused");
    assert!(
        err.message().contains("inflates"),
        "expected the inflate cap to fire, got: {}",
        err.message()
    );
}

#[test]
fn a_file_is_unpacked_before_it_is_decoded() {
    let mut file = vec![3u8];
    file.extend(zlib(b"a pickle of some length, a pickle of some length"));
    assert_eq!(
        MultiData::unpack(&file).unwrap(),
        b"a pickle of some length, a pickle of some length"
    );
    let data = MultiData::parse(&file, |pickle| {
        assert_eq!(pickle, b"a pickle of some length, a pickle of some length");
        Ok(multidata_granting(3))
    })
    .unwrap();
    assert_eq!(data.seed_name, "minimal");
    assert_eq!(data.min_client_version(1), Version::new(0, 5, 0));
    let err = MultiData::parse(&file, |_| Err("no opcode".to_string())).unwrap_err();
    assert_eq!(err.message(), "could not decode multidata pickle: no opcode");
}

#[test]
fn a_broken_file_is_refused_by_what_breaks_it() {
    let decode = |_: &Vec<u8>| Err("unused".to_string());
    assert_eq!(MultiData::parse(&vec![], decode).unwrap_err(), Error::Empty);
    assert_eq!(MultiData::parse(&vec![9, 1, 2], decode).unwrap_err(), Error::UnsupportedFormat(9));
    assert!(matches!(
        MultiData::parse(&vec![3, 1, 2, 3, 4], decode).unwrap_err(),
        Error::Decompress(_)
    ));
    assert_eq!(cap_pickle(Ok(vec![1, 2])).unwrap(), vec![1, 2]);
    assert_eq!(cap_pickle(Err("x".to_string())).unwrap_err(), Error::Decompress("x".to_string()));
}

#[test]
fn the_limits_leave_headroom_over_the_largest_seed() {
    assert!(MAX_PICKLE_BYTES >= 7_276_310 * 4);
    assert!(MAX_PRECOLLECTED_ITEMS >= 2_975 * 10);
}

#[test]
fn a_tree_without_a_key_names_the_key() {
    let err = MultiData::from_py(&dict(vec![])).map(|_| ()).unwrap_err();
    assert_eq!(err.message(), "seed_name: missing required key");
    let err = MultiData::from_py(&PyObj::Nil).map(|_| ()).unwrap_err();
    assert_eq!(err.message(), "<root>: expected dict, found None");
}

#[test]
fn numbers_out_of_range_are_refused() {
    let p = Path::root().key("slot");
    assert_eq!(PyObj::Int(-1).u32_(&p).unwrap_err().message(), "slot: value -1 is out of range for u32");
    assert_eq!(PyObj::Int(7).u32_(&p).unwrap(), 7);
    assert_eq!(PyObj::Bool(true).kind_name(), "bool");
    assert_eq!(PyObj::Nil.int_(&p).unwrap_err().message(), "slot: expected int, found None");
}
