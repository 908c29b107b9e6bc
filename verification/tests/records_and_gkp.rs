use jx3_store::gkp::parse_binary_gkp;
use jx3_store::gkp::GkpParseRequest;
use jx3_store::json::json_parse;
use jx3_store::json::JsonValue;
use jx3_store::records::baizhan_record_from_json;
use jx3_store::records::config_debug;
use jx3_store::records::default_baizhan_type;
use jx3_store::records::equipment_from_json;
use jx3_store::records::group_by_key;
use jx3_store::records::trial_record_from_json;

#[test]
fn baizhan_record_reads_required_and_optional_fields() {
    let v = json_parse(
        "{\"id\":\"b1\",\"accountId\":\"a1\",\"roleId\":\"r1\",\"date\":\"2024-05-06\",\
         \"goldIncome\":1200,\"goldExpense\":300,\"roleName\":\"某角色\",\"notes\":\"n\"}",
    )
    .unwrap();
    let rec = baizhan_record_from_json(&v).expect("well-formed payload");
    assert_eq!(rec.id, "b1");
    assert_eq!(rec.account_id, "a1");
    assert_eq!(rec.role_id, "r1");
    assert_eq!(rec.date, "2024-05-06");
    assert_eq!(rec.gold_income, 1200);
    assert_eq!(rec.gold_expense, Some(300));
    assert_eq!(rec.role_name.as_deref(), Some("某角色"));
    assert_eq!(rec.server, None);
    assert_eq!(rec.record_type, "baizhan");
}

#[test]
fn baizhan_record_rejects_missing_identifiers() {
    let v = json_parse("{\"id\":\"b1\",\"date\":\"x\",\"goldIncome\":1}").unwrap();
    assert!(baizhan_record_from_json(&v).is_none());
    let v2 = json_parse(
        "{\"id\":\"b1\",\"accountId\":\"a\",\"roleId\":\"r\",\"date\":\"x\",\"goldIncome\":\"text\"}",
    )
    .unwrap();
    assert!(baizhan_record_from_json(&v2).is_none(), "a text income is malformed");
}

#[test]
fn default_record_type_is_baizhan() {
    assert_eq!(default_baizhan_type(), "baizhan");
    let v = json_parse(
        "{\"id\":\"b\",\"accountId\":\"a\",\"roleId\":\"r\",\"date\":\"d\",\"goldIncome\":0,\
         \"type\":\"special\"}",
    )
    .unwrap();
    let rec = baizhan_record_from_json(&v).unwrap();
    assert_eq!(rec.record_type, "special", "an explicit type wins over the default");
}

#[test]
fn trial_record_keeps_boss_order_and_defaults() {
    let v = json_parse(
        "{\"id\":\"t1\",\"accountId\":\"a\",\"roleId\":\"r\",\"date\":\"2024\",\
         \"layer\":7,\"bosses\":[\"one\",3,\"two\"],\"card2\":\"c\"}",
    )
    .unwrap();
    let rec = trial_record_from_json(&v).expect("well-formed payload");
    assert_eq!(rec.layer, 7);
    assert_eq!(rec.flipped_index, 0);
    assert_eq!(rec.bosses, vec!["one".to_string(), "two".to_string()]);
    assert_eq!(rec.card_1, "");
    assert_eq!(rec.card_2, "c");
    assert!(rec.notes.is_none());
    let bad = json_parse("{\"id\":\"t1\"}").unwrap();
    assert!(trial_record_from_json(&bad).is_none());
}

#[test]
fn roles_group_under_their_accounts() {
    let accounts = vec!["a1".to_string(), "a2".to_string(), "a3".to_string()];
    let owners = vec![
        "a2".to_string(),
        "a1".to_string(),
        "a2".to_string(),
        "nobody".to_string(),
    ];
    let groups = group_by_key(&accounts, &owners);
    assert_eq!(groups.len(), 3);
    assert_eq!(groups[0], vec![1]);
    assert_eq!(groups[1], vec![0, 2]);
    assert!(groups[2].is_empty());
}

#[test]
fn sniffer_rejects_a_tiny_buffer() {
    let resp = parse_binary_gkp(GkpParseRequest { buffer: vec![1, 2, 3], options: None })
        .expect("always answers");
    assert!(!resp.success);
    assert_eq!(resp.error.as_deref(), Some("文件太小"));
    assert!(resp.data.is_none());
}

#[test]
fn sniffer_parses_a_text_table_literal() {
    let body = "  {\"k\": [1, 2]}  \n".as_bytes().to_vec();
    let resp = parse_binary_gkp(GkpParseRequest { buffer: body, options: None }).unwrap();
    assert!(resp.success);
    assert!(resp.error.is_none());
    match resp.data.expect("parsed") {
        JsonValue::Obj(fields) => assert_eq!(fields.len(), 1),
        _ => panic!("expected an object"),
    }
}

#[test]
fn sniffer_requires_the_table_shape() {
    let resp = parse_binary_gkp(GkpParseRequest {
        buffer: "just some text".as_bytes().to_vec(),
        options: None,
    })
    .unwrap();
    assert!(!resp.success);
    assert_eq!(resp.error.as_deref(), Some("不是Lua表格式"));

    let resp2 = parse_binary_gkp(GkpParseRequest {
        buffer: "{not valid json}".as_bytes().to_vec(),
        options: None,
    })
    .unwrap();
    assert!(!resp2.success);
    assert_eq!(resp2.error.as_deref(), Some("无法解析JSON"));

    let resp3 = parse_binary_gkp(GkpParseRequest {
        buffer: vec![0xff, 0xfe, 0, 1, 2, 3, 4, 5],
        options: None,
    })
    .unwrap();
    assert_eq!(resp3.error.as_deref(), Some("UTF-8解码失败"));
}

#[test]
fn sniffer_recognises_the_binary_envelope() {
    let mut buffer = vec![0x20, 0x61, 0x74, 0x17, 0x46, 0x14, 0x46, 0x17];
    buffer.extend_from_slice("{\"a\":1}".as_bytes());
    let resp = parse_binary_gkp(GkpParseRequest { buffer, options: None }).unwrap();
    assert!(!resp.success, "the envelope bytes sit before the brace");
    assert_eq!(resp.error.as_deref(), Some("解析失败: 不是Lua表格式"));
}

#[test]
fn config_debug_summarises_the_blob() {
    let missing = config_debug(true, None);
    assert!(missing.table_exists && !missing.present);
    assert_eq!((missing.length, missing.field_count), (0, 0));

    let blob = "{\"a\":1,\"b\":2}".to_string();
    let ok = config_debug(true, Some(&blob));
    assert!(ok.present && ok.parse_ok);
    assert_eq!(ok.length, blob.len());
    assert_eq!(ok.field_count, 2);

    let broken = "{oops".to_string();
    let bad = config_debug(true, Some(&broken));
    assert!(bad.present && !bad.parse_ok);
    assert_eq!(bad.field_count, 0);
}

#[test]
fn equipment_requires_its_identifiers() {
    let v = json_parse(
        "{\"ID\":\"8_41486\",\"Name\":\"剑\",\"UiID\":\"u1\",\"Quality\":\"5\",\"Level\":13000,\
         \"IconID\":77,\"attributes\":[{\"k\":1}],\"Recommend\":\"r\"}",
    )
    .unwrap();
    let row = equipment_from_json(&v).expect("well-formed entry");
    assert_eq!(row.id, "8_41486");
    assert_eq!(row.level, 13000);
    assert_eq!(row.icon_id, Some(77));
    assert_eq!(row.bind_type, None);
    assert_eq!(row.recommend.as_deref(), Some("r"));
    assert!(row.attributes.is_some());
    assert!(row.diamonds.is_none());

    let missing = json_parse("{\"Name\":\"剑\",\"UiID\":\"u\",\"Quality\":\"5\",\"Level\":1}").unwrap();
    assert!(equipment_from_json(&missing).is_none(), "the upstream id is required");
    let bad_attr = json_parse(
        "{\"ID\":\"x\",\"Name\":\"n\",\"UiID\":\"u\",\"Quality\":\"q\",\"Level\":1,\"attributes\":7}",
    )
    .unwrap();
    assert!(equipment_from_json(&bad_attr).is_none(), "a non-array attribute block is malformed");
}
