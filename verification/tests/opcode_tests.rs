use xiv_packet_tools::opcodes::{classify, update_opcode, Classification, KnownOpCode, KnownOpCodes};
use xiv_packet_tools::record::{Direction, Protocol};

fn entry(name: &str, opcode: i32, size: u32) -> KnownOpCode {
    KnownOpCode { name: name.to_string(), opcode, size, dirty: false }
}

fn opcodes(list: &[KnownOpCode]) -> Vec<(i32, bool)> {
    list.iter().map(|e| (e.opcode, e.dirty)).collect()
}

#[test]
fn sole_opcode_match_is_exact() {
    let list = vec![entry("A", 1, 8), entry("ActorMove", 322, 16), entry("C", 3, 24)];
    assert_eq!(classify(&list, 322, 16), Classification::ExactMatch { entry: 1 });
}

#[test]
fn sole_opcode_match_wins_over_a_matching_size() {
    let list = vec![entry("SameSize", 1, 16), entry("ActorMove", 322, 40), entry("C", 3, 16)];
    assert_eq!(classify(&list, 322, 16), Classification::ExactMatch { entry: 1 });
}

#[test]
fn exact_match_with_another_size_is_still_exact() {
    let list = vec![entry("ActorMove", 322, 16)];
    assert_eq!(classify(&list, 322, 999), Classification::ExactMatch { entry: 0 });
}

#[test]
fn empty_list_classifies_nothing() {
    for opcode in [0u16, 1, 322, u16::MAX] {
        for size in [0u32, 16, u32::MAX] {
            assert_eq!(classify(&[], opcode, size), Classification::Unknown);
        }
    }
}

#[test]
fn unknown_opcode_with_a_known_size_is_a_hint() {
    let list = vec![entry("A", 1, 8), entry("B", 2, 16), entry("C", 3, 16)];
    assert_eq!(classify(&list, 77, 16), Classification::SizeHintOnly { entry: 1 });
}

#[test]
fn unknown_opcode_and_unknown_size() {
    let list = vec![entry("A", 1, 8), entry("B", 2, 16)];
    assert_eq!(classify(&list, 77, 17), Classification::Unknown);
}

#[test]
fn opcode_carried_twice_is_not_exact() {
    let list = vec![entry("A", 5, 8), entry("B", 5, 16), entry("C", 6, 24)];
    assert_eq!(classify(&list, 5, 24), Classification::SizeHintOnly { entry: 2 });
    assert_eq!(classify(&list, 5, 8), Classification::SizeHintOnly { entry: 0 });
    assert_eq!(classify(&list, 5, 99), Classification::Unknown);
}

#[test]
fn negative_and_large_table_opcodes_never_match() {
    let list = vec![entry("Neg", -1, 8), entry("Big", 0x1_0142, 8)];
    assert_eq!(classify(&list, 0xffff, 4), Classification::Unknown);
    assert_eq!(classify(&list, 0x0142, 4), Classification::Unknown);
}

#[test]
fn update_replaces_the_opcode_in_every_entry_that_carries_it() {
    let mut list = vec![entry("A", 5, 0), entry("B", 5, 0)];
    update_opcode(&mut list, 5, 7);
    assert_eq!(opcodes(&list), vec![(7, true), (7, true)]);
}

#[test]
fn update_keeps_names_sizes_and_other_entries() {
    let mut list = vec![entry("A", 1, 8), entry("B", 2, 9), entry("C", 3, 10), entry("B2", 2, 11)];
    update_opcode(&mut list, 2, 20);
    assert_eq!(opcodes(&list), vec![(1, false), (20, true), (3, false), (20, true)]);
    let names: Vec<&str> = list.iter().map(|e| e.name.as_str()).collect();
    assert_eq!(names, vec!["A", "B", "C", "B2"]);
    let sizes: Vec<u32> = list.iter().map(|e| e.size).collect();
    assert_eq!(sizes, vec![8, 9, 10, 11]);
}

#[test]
fn update_leaves_marked_entries_with_the_opcode_alone() {
    let mut list = vec![entry("A", 5, 0), entry("B", 5, 0), entry("C", 5, 0)];
    list[1].dirty = true;
    update_opcode(&mut list, 5, 7);
    assert_eq!(opcodes(&list), vec![(7, true), (5, true), (7, true)]);
}

#[test]
fn update_without_a_match_changes_nothing() {
    let mut list = vec![entry("A", 1, 8), entry("B", 2, 8)];
    let before = list.clone();
    update_opcode(&mut list, 3, 30);
    assert_eq!(list, before);
    let mut none: Vec<KnownOpCode> = Vec::new();
    update_opcode(&mut none, 3, 30);
    assert!(none.is_empty());
}

#[test]
fn update_passes_over_updated_entries() {
    let mut list = vec![entry("A", 1, 8), entry("B", 2, 8)];
    update_opcode(&mut list, 1, 2);
    assert_eq!(opcodes(&list), vec![(2, true), (2, false)]);
    update_opcode(&mut list, 2, 3);
    assert_eq!(opcodes(&list), vec![(2, true), (3, true)]);
    update_opcode(&mut list, 2, 4);
    assert_eq!(opcodes(&list), vec![(2, true), (3, true)]);
    update_opcode(&mut list, 3, 5);
    assert_eq!(opcodes(&list), vec![(2, true), (3, true)]);
}

#[test]
fn update_to_the_same_opcode_marks_the_entry() {
    let mut list = vec![entry("A", 7, 8)];
    update_opcode(&mut list, 7, 7);
    assert_eq!(opcodes(&list), vec![(7, true)]);
}

#[test]
fn new_table_has_six_empty_lists() {
    let table = KnownOpCodes::new();
    assert!(table.server_zone_ipc_type.is_empty());
    assert!(table.client_zone_ipc_type.is_empty());
    assert!(table.server_lobby_ipc_type.is_empty());
    assert!(table.client_lobby_ipc_type.is_empty());
    assert!(table.server_chat_ipc_type.is_empty());
    assert!(table.client_chat_ipc_type.is_empty());
}

#[test]
fn lists_are_selected_by_protocol_and_direction() {
    let mut table = KnownOpCodes::new();
    table.server_zone_ipc_type.push(entry("sz", 1, 1));
    table.client_zone_ipc_type.push(entry("cz", 2, 2));
    table.server_lobby_ipc_type.push(entry("sl", 3, 3));
    table.client_lobby_ipc_type.push(entry("cl", 4, 4));
    table.server_chat_ipc_type.push(entry("sc", 5, 5));
    table.client_chat_ipc_type.push(entry("cc", 6, 6));
    let name = |p: Protocol, d: Direction| table.select(p, d).map(|l| l[0].name.clone());
    assert_eq!(name(Protocol::Zone, Direction::Rx), Some("sz".to_string()));
    assert_eq!(name(Protocol::Zone, Direction::Tx), Some("cz".to_string()));
    assert_eq!(name(Protocol::Lobby, Direction::Rx), Some("sl".to_string()));
    assert_eq!(name(Protocol::Lobby, Direction::Tx), Some("cl".to_string()));
    assert_eq!(name(Protocol::Chat, Direction::Rx), Some("sc".to_string()));
    assert_eq!(name(Protocol::Chat, Direction::Tx), Some("cc".to_string()));
}

#[test]
fn unset_protocol_or_direction_has_no_list() {
    let table = KnownOpCodes::new();
    for direction in [Direction::Unset, Direction::Rx, Direction::Tx] {
        assert_eq!(table.select(Protocol::Unset, direction), None);
    }
    for protocol in [Protocol::Unset, Protocol::Zone, Protocol::Chat, Protocol::Lobby] {
        assert_eq!(table.select(protocol, Direction::Unset), None);
    }
}

#[test]
fn default_table_is_empty() {
    assert_eq!(KnownOpCodes::default(), KnownOpCodes::new());
}

#[test]
fn zone_update_touches_both_zone_lists_and_no_other() {
    let mut table = KnownOpCodes::new();
    table.server_zone_ipc_type = vec![entry("a", 1, 1), entry("b", 2, 2)];
    table.client_zone_ipc_type = vec![entry("c", 2, 3), entry("d", 2, 4)];
    table.server_lobby_ipc_type = vec![entry("e", 2, 5)];
    table.client_lobby_ipc_type = vec![entry("f", 2, 6)];
    table.server_chat_ipc_type = vec![entry("g", 2, 7)];
    table.client_chat_ipc_type = vec![entry("h", 2, 8)];
    let before = table.clone();
    table.update_zone_opcode(2, 0x99);
    assert_eq!(opcodes(&table.server_zone_ipc_type), vec![(1, false), (0x99, true)]);
    assert_eq!(opcodes(&table.client_zone_ipc_type), vec![(0x99, true), (0x99, true)]);
    assert_eq!(table.server_lobby_ipc_type, before.server_lobby_ipc_type);
    assert_eq!(table.client_lobby_ipc_type, before.client_lobby_ipc_type);
    assert_eq!(table.server_chat_ipc_type, before.server_chat_ipc_type);
    assert_eq!(table.client_chat_ipc_type, before.client_chat_ipc_type);
}

#[test]
fn chained_zone_updates_move_each_entry_once() {
    let mut table = KnownOpCodes::new();
    table.server_zone_ipc_type = vec![entry("a", 1, 1), entry("b", 2, 2)];
    table.update_zone_opcode(1, 2);
    table.update_zone_opcode(2, 3);
    assert_eq!(opcodes(&table.server_zone_ipc_type), vec![(2, true), (3, true)]);
}
