use zabbix::{
    get_item, join_host_item, join_item_host, reconcile_config, CellValue, ConfigData,
    ConfigFields, ConfigRow, Host, Item, Row, RowCell,
};

fn cell(name: &str, value: CellValue) -> RowCell {
    RowCell {
        name: name.to_string(),
        value,
    }
}

fn item_row(status: bool, itemid: bool, hostid: i64, delay: &str, key: &str) -> Row {
    let mut cells = Vec::new();
    if status {
        cells.push(cell("status", CellValue::Int(0)));
    }
    if itemid {
        cells.push(cell("itemid", CellValue::Int(1)));
    }
    cells.push(cell("hostid", CellValue::Int(hostid)));
    cells.push(cell("delay", CellValue::Text(delay.to_string())));
    cells.push(cell("key_", CellValue::Text(key.to_string())));
    Row { cells }
}

#[test]
fn proxy_test_item_from() {
    let mut data: Vec<Row> = vec![];
    for x in 0..5i64 {
        data.push(item_row(true, true, 3010 + x % 2, "30s", &format!("df[{}]", x)));
    }

    let compress = vec!["[".to_string()];
    let items = Item::from(&data, &compress, true, true);
    assert_eq!(2, items.len());

    let items = Item::from(&data, &vec![], true, true);
    assert_eq!(5, items.len());
}

#[test]
fn response_test_item_from() {
    let mut data: Vec<Row> = vec![];
    for x in 0..5i64 {
        data.push(item_row(false, false, 3010 + x % 2, "30s", &format!("df[{}]", x)));
    }

    let compress = vec!["[".to_string()];
    let items = Item::from(&data, &compress, false, false);
    assert_eq!(2, items.len());

    let items = Item::from(&data, &vec![], false, false);
    assert_eq!(5, items.len());
}

#[test]
fn test_zero_delay_excluded() {
    let data = vec![
        item_row(true, true, 1, "0s", "a"),
        item_row(true, true, 1, "0", "b"),
        item_row(true, true, 1, "garbage", "c"),
        item_row(true, true, 1, "30s", "d"),
        item_row(true, true, 1, "30s", "d"),
    ];
    let items = Item::from(&data, &vec![], true, true);
    assert_eq!(1, items.len());
    assert_eq!("d", items[0].key_);
    assert_eq!(30, items[0].delay);
}

#[test]
fn test_status_filter() {
    let enabled = item_row(true, true, 1, "30s", "a");
    let mut disabled = item_row(false, true, 1, "30s", "b");
    disabled.cells.push(cell("status", CellValue::Int(1)));
    let unmarked = item_row(false, true, 1, "30s", "c");

    let items = Item::from(&vec![enabled, disabled, unmarked], &vec![], true, true);
    assert_eq!(1, items.len());
    assert_eq!("a", items[0].key_);
}

#[test]
fn test_key_compression_tokens_in_order() {
    let data = vec![item_row(true, true, 1, "30s", "df[0]_x")];
    let both = vec!["[".to_string(), "_".to_string()];
    let items = Item::from(&data, &both, true, true);
    assert_eq!("df", items[0].key_);

    let underscore_only = vec!["_".to_string()];
    let items = Item::from(&data, &underscore_only, true, true);
    assert_eq!("df[0]", items[0].key_);
}

fn host_row(hostid: i64, name: &str, display: Option<&str>) -> Row {
    let mut cells = vec![
        cell("status", CellValue::Int(0)),
        cell("hostid", CellValue::Int(hostid)),
        cell("host", CellValue::Text(name.to_string())),
    ];
    if let Some(d) = display {
        cells.push(cell("name", CellValue::Text(d.to_string())));
    }
    Row { cells }
}

#[test]
fn test_host_from_dedup() {
    let data = vec![
        host_row(1, "web-1", None),
        host_row(1, "web-1", None),
        host_row(2, "web-2", None),
    ];
    let hosts = Host::from(&data, true, false);
    assert_eq!(2, hosts.len());
}

#[test]
fn test_host_from_with_name() {
    let data = vec![host_row(1, "web-1", Some("Front web")), host_row(2, "web-2", None)];
    let hosts = Host::from(&data, true, true);
    // the second row has no display name, so it is dropped in this variant
    assert_eq!(1, hosts.len());
    assert_eq!("Front web", hosts[0].name);

    let hosts = Host::from(&data, true, false);
    assert_eq!(2, hosts.len());
}

fn table(fields: Vec<CellValue>, rows: Vec<ConfigRow>) -> (ConfigFields, ConfigData) {
    (ConfigFields::Names(fields), ConfigData::Rows(rows))
}

#[test]
fn test_get_item_zips_in_order() {
    let (fields, data) = table(
        vec![
            CellValue::Text("hostid".to_string()),
            CellValue::Text("host".to_string()),
        ],
        vec![
            ConfigRow::Cells(vec![CellValue::Int(7), CellValue::Text("a".to_string())]),
            ConfigRow::Cells(vec![CellValue::Int(8), CellValue::Text("b".to_string())]),
        ],
    );
    let rows = get_item(&fields, &data);
    assert_eq!(2, rows.len());
    assert_eq!("hostid", rows[0].cells[0].name);
    assert_eq!("host", rows[0].cells[1].name);
    assert!(matches!(rows[1].cells[0].value, CellValue::Int(8)));
}

#[test]
fn test_get_item_is_lenient() {
    // a malformed fields node yields nothing
    let rows = get_item(&ConfigFields::Malformed, &ConfigData::Rows(vec![]));
    assert_eq!(0, rows.len());

    // a malformed data node yields nothing
    let rows = get_item(
        &ConfigFields::Names(vec![CellValue::Text("a".to_string())]),
        &ConfigData::Malformed,
    );
    assert_eq!(0, rows.len());

    // a malformed row is skipped, a ragged row is zipped as far as it reaches,
    // and a non-string column name is dropped
    let (fields, data) = table(
        vec![
            CellValue::Text("a".to_string()),
            CellValue::Int(5),
            CellValue::Text("b".to_string()),
        ],
        vec![
            ConfigRow::Malformed,
            ConfigRow::Cells(vec![CellValue::Int(1), CellValue::Int(2), CellValue::Int(3)]),
            ConfigRow::Cells(vec![CellValue::Int(4)]),
        ],
    );
    let rows = get_item(&fields, &data);
    assert_eq!(2, rows.len());
    assert_eq!(2, rows[0].cells.len());
    assert_eq!("a", rows[0].cells[0].name);
    assert_eq!("b", rows[0].cells[1].name);
    assert_eq!(1, rows[1].cells.len());
}

#[test]
fn test_duplicate_column_last_wins() {
    let (fields, data) = table(
        vec![
            CellValue::Text("hostid".to_string()),
            CellValue::Text("hostid".to_string()),
            CellValue::Text("host".to_string()),
            CellValue::Text("status".to_string()),
        ],
        vec![ConfigRow::Cells(vec![
            CellValue::Int(1),
            CellValue::Int(2),
            CellValue::Text("h".to_string()),
            CellValue::Int(0),
        ])],
    );
    let rows = get_item(&fields, &data);
    let hosts = Host::from(&rows, true, false);
    assert_eq!(1, hosts.len());
    assert_eq!(2, hosts[0].hostid);
}

#[test]
fn test_join_correctness() {
    let h1 = Host::new(1, "h1".to_string(), String::new());
    let h2 = Host::new(2, "h2".to_string(), String::new());
    let hosts = vec![h1, h2];
    let items = vec![
        Item::new(None, 1, "i1".to_string(), 30),
        Item::new(None, 2, "i2".to_string(), 30),
        Item::new(None, 1, "i3".to_string(), 30),
        Item::new(None, 9, "orphan".to_string(), 30),
    ];

    let grouped = join_host_item(&hosts, &items);
    assert_eq!(2, grouped.len());
    assert_eq!("h1", grouped[0].host.host);
    assert_eq!(2, grouped[0].items.len());
    assert_eq!("i1", grouped[0].items[0].key_);
    assert_eq!("i3", grouped[0].items[1].key_);
    assert_eq!(1, grouped[1].items.len());

    let paired = join_item_host(&hosts, &items);
    assert_eq!(3, paired.len());
    assert_eq!("i1", paired[0].item.key_);
    assert_eq!("h1", paired[0].host.host);
    assert_eq!("h2", paired[1].host.host);
    assert_eq!("h1", paired[2].host.host);
}

#[test]
fn test_reconcile_config_whole_dump() {
    let (hf, hd) = {
        (
            ConfigFields::Names(vec![
                CellValue::Text("hostid".to_string()),
                CellValue::Text("host".to_string()),
                CellValue::Text("status".to_string()),
            ]),
            ConfigData::Rows(vec![
                ConfigRow::Cells(vec![
                    CellValue::Int(3010),
                    CellValue::Text("web".to_string()),
                    CellValue::Int(0),
                ]),
                ConfigRow::Cells(vec![
                    CellValue::Int(3011),
                    CellValue::Text("db".to_string()),
                    CellValue::Int(1),
                ]),
            ]),
        )
    };
    let (ifl, idt) = {
        (
            ConfigFields::Names(vec![
                CellValue::Text("itemid".to_string()),
                CellValue::Text("hostid".to_string()),
                CellValue::Text("delay".to_string()),
                CellValue::Text("key_".to_string()),
                CellValue::Text("status".to_string()),
            ]),
            ConfigData::Rows(vec![
                ConfigRow::Cells(vec![
                    CellValue::Int(1),
                    CellValue::Int(3010),
                    CellValue::Text("1m".to_string()),
                    CellValue::Text("df[0]".to_string()),
                    CellValue::Int(0),
                ]),
                ConfigRow::Cells(vec![
                    CellValue::Int(2),
                    CellValue::Int(3010),
                    CellValue::Text("0".to_string()),
                    CellValue::Text("df[1]".to_string()),
                    CellValue::Int(0),
                ]),
            ]),
        )
    };
    let compress = vec!["[".to_string()];
    let (hosts, items) = reconcile_config(&hf, &hd, &ifl, &idt, &compress, true, false, true);
    assert_eq!(1, hosts.len());
    assert_eq!("web", hosts[0].host);
    assert_eq!(1, items.len());
    assert_eq!("df", items[0].key_);
    assert_eq!(60, items[0].delay);
    assert_eq!(Some(1), items[0].itemid);
}
