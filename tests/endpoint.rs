use usb2snes::endpoint::{
    endpoint_entries, get_end_points, AltSettingDesc, ConfigDesc, Direction, Endpoint, EndpointDesc, EndpointEntry,
    InterfaceDesc, TransferKind,
};

fn entry(iface: u8, address: u8, direction: Direction, kind: TransferKind) -> EndpointEntry {
    EndpointEntry { config: 1, iface, setting: 0, address, direction, kind }
}

fn ep(iface: u8, address: u8) -> Endpoint {
    Endpoint { config: 1, iface, setting: 0, address }
}

#[test]
fn single_pair_is_found() {
    let entries = vec![
        entry(0, 0x81, Direction::In, TransferKind::Bulk),
        entry(0, 0x02, Direction::Out, TransferKind::Bulk),
        entry(1, 0x83, Direction::In, TransferKind::Interrupt),
    ];
    assert_eq!(get_end_points(&entries, TransferKind::Bulk), Some((ep(0, 0x81), ep(0, 0x02))));
}

#[test]
fn one_direction_only_is_not_found() {
    let entries = vec![
        entry(0, 0x81, Direction::In, TransferKind::Bulk),
        entry(0, 0x02, Direction::Out, TransferKind::Interrupt),
    ];
    assert_eq!(get_end_points(&entries, TransferKind::Bulk), None);
    assert_eq!(get_end_points(&entries, TransferKind::Interrupt), None);
    assert_eq!(get_end_points(&Vec::new(), TransferKind::Bulk), None);
}

#[test]
fn last_enumerated_wins() {
    let entries = vec![
        entry(0, 0x81, Direction::In, TransferKind::Bulk),
        entry(0, 0x01, Direction::Out, TransferKind::Bulk),
        entry(2, 0x85, Direction::In, TransferKind::Bulk),
        entry(3, 0x07, Direction::Out, TransferKind::Bulk),
        entry(4, 0x89, Direction::In, TransferKind::Control),
    ];
    assert_eq!(get_end_points(&entries, TransferKind::Bulk), Some((ep(2, 0x85), ep(3, 0x07))));
}

#[test]
fn entry_keeps_its_ancestry() {
    let e = EndpointEntry {
        config: 2,
        iface: 3,
        setting: 4,
        address: 0x85,
        direction: Direction::In,
        kind: TransferKind::Isochronous,
    };
    assert_eq!(e.endpoint(), Endpoint { config: 2, iface: 3, setting: 4, address: 0x85 });
}

fn desc(address: u8, direction: Direction, kind: TransferKind) -> EndpointDesc {
    EndpointDesc { address, direction, kind }
}

fn sample_tree() -> Vec<Option<ConfigDesc>> {
    vec![
        Some(ConfigDesc {
            number: 1,
            interfaces: vec![
                InterfaceDesc {
                    settings: vec![
                        AltSettingDesc {
                            interface_number: 0,
                            setting_number: 0,
                            endpoints: vec![
                                desc(0x81, Direction::In, TransferKind::Bulk),
                                desc(0x02, Direction::Out, TransferKind::Bulk),
                            ],
                        },
                        AltSettingDesc { interface_number: 0, setting_number: 1, endpoints: vec![] },
                    ],
                },
                InterfaceDesc {
                    settings: vec![AltSettingDesc {
                        interface_number: 1,
                        setting_number: 2,
                        endpoints: vec![desc(0x83, Direction::In, TransferKind::Interrupt)],
                    }],
                },
            ],
        }),
        None,
        Some(ConfigDesc {
            number: 3,
            interfaces: vec![InterfaceDesc {
                settings: vec![AltSettingDesc {
                    interface_number: 4,
                    setting_number: 0,
                    endpoints: vec![desc(0x05, Direction::Out, TransferKind::Bulk)],
                }],
            }],
        }),
    ]
}

#[test]
fn tree_is_listed_in_enumeration_order() {
    let entries = endpoint_entries(&sample_tree());
    assert_eq!(
        entries,
        vec![
            EndpointEntry { config: 1, iface: 0, setting: 0, address: 0x81, direction: Direction::In, kind: TransferKind::Bulk },
            EndpointEntry { config: 1, iface: 0, setting: 0, address: 0x02, direction: Direction::Out, kind: TransferKind::Bulk },
            EndpointEntry {
                config: 1,
                iface: 1,
                setting: 2,
                address: 0x83,
                direction: Direction::In,
                kind: TransferKind::Interrupt,
            },
            EndpointEntry { config: 3, iface: 4, setting: 0, address: 0x05, direction: Direction::Out, kind: TransferKind::Bulk },
        ]
    );
    assert!(endpoint_entries(&vec![None, None]).is_empty());
}

#[test]
fn tree_resolution_takes_last_output() {
    let entries = endpoint_entries(&sample_tree());
    assert_eq!(
        get_end_points(&entries, TransferKind::Bulk),
        Some((
            Endpoint { config: 1, iface: 0, setting: 0, address: 0x81 },
            Endpoint { config: 3, iface: 4, setting: 0, address: 0x05 },
        ))
    );
    assert_eq!(get_end_points(&entries, TransferKind::Interrupt), None);
}
