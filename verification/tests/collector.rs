use host_inventory::request::{
    ANTIVIRUS_QUERY, FIREWALL_QUERY, OPERATING_SYSTEM_QUERY, PROCESSOR_NAMESPACE,
    PROCESSOR_QUERY, PRODUCT_KEY_SUBKEY, PRODUCT_KEY_VALUE, SECURITY_CENTER_NAMESPACE,
    TASK_ROOT_FOLDER,
};
use host_inventory::{
    get_avfw, get_cimos, get_cpu, get_key, get_tasks, Error, PropertyMap, Reply, Row, Variant,
};

fn text(value: &str) -> Variant {
    Variant::String(value.to_string())
}

fn entry(name: &str, value: Variant) -> (String, Variant) {
    (name.to_string(), value)
}

fn product(name: &str, state: u32) -> Row {
    vec![entry("displayName", text(name)), entry("productState", Variant::UI4(state))]
}

fn processor(device: &str, cores: u32) -> Row {
    vec![
        entry("DeviceID", text(device)),
        entry("NumberOfCores", Variant::UI4(cores)),
        entry("Name", text("Example CPU")),
    ]
}

#[test]
fn requests_are_the_fixed_texts() {
    assert_eq!(OPERATING_SYSTEM_QUERY, "SELECT * FROM Win32_OperatingSystem");
    assert_eq!(SECURITY_CENTER_NAMESPACE, r"ROOT\SECURITYCENTER2");
    assert_eq!(ANTIVIRUS_QUERY, "SELECT * FROM AntivirusProduct");
    assert_eq!(FIREWALL_QUERY, "SELECT * FROM FirewallProduct");
    assert_eq!(PROCESSOR_NAMESPACE, r"Root\CIMV2");
    assert_eq!(PROCESSOR_QUERY, "SELECT * FROM Win32_Processor");
    assert_eq!(PRODUCT_KEY_SUBKEY, r"SOFTWARE\Microsoft\Windows NT\CurrentVersion");
    assert_eq!(PRODUCT_KEY_VALUE, "DigitalProductId");
    assert_eq!(TASK_ROOT_FOLDER, r"\");
}

#[test]
fn operating_system_row_becomes_the_mapping() {
    let row = vec![
        entry("Caption", text("Microsoft Windows 11 Pro")),
        entry("BuildNumber", text("22631")),
        entry("Primary", Variant::Bool(true)),
        entry("FreePhysicalMemory", Variant::UI8(8_123_456)),
    ];
    let map = get_cimos(Reply::Answered(vec![row])).unwrap();
    assert_eq!(map.len(), 4);
    assert_eq!(map.get("Caption"), Some(&text("Microsoft Windows 11 Pro")));
    assert_eq!(map.get("BuildNumber"), Some(&text("22631")));
    assert_eq!(map.get("Primary"), Some(&Variant::Bool(true)));
    assert_eq!(map.get("FreePhysicalMemory"), Some(&Variant::UI8(8_123_456)));
}

#[test]
fn operating_system_without_rows_is_the_empty_mapping() {
    let result = get_cimos(Reply::Answered(Vec::new()));
    assert_eq!(result, Ok(PropertyMap::new()));
}

#[test]
fn operating_system_of_several_rows_is_the_last() {
    let rows = vec![
        vec![entry("Caption", text("first")), entry("OnlyInFirst", Variant::I4(1))],
        vec![entry("Caption", text("second"))],
        vec![entry("Caption", text("third")), entry("OnlyInThird", Variant::I4(3))],
    ];
    let map = get_cimos(Reply::Answered(rows)).unwrap();
    assert_eq!(map.len(), 2);
    assert_eq!(map.get("Caption"), Some(&text("third")));
    assert_eq!(map.get("OnlyInThird"), Some(&Variant::I4(3)));
    assert_eq!(map.get("OnlyInFirst"), None);
}

#[test]
fn operating_system_last_row_may_be_empty() {
    let rows = vec![vec![entry("Caption", text("first"))], Vec::new()];
    assert_eq!(get_cimos(Reply::Answered(rows)), Ok(PropertyMap::new()));
}

#[test]
fn operating_system_unreachable_is_a_connection_error() {
    let result = get_cimos(Reply::Unreachable("HRESULT Call failed with: 0x8004100E".to_string()));
    assert_eq!(
        result,
        Err(Error::Connection("HRESULT Call failed with: 0x8004100E".to_string()))
    );
}

#[test]
fn operating_system_rejected_is_a_query_error() {
    let result = get_cimos(Reply::Rejected("HRESULT Call failed with: 0x80041017".to_string()));
    assert_eq!(result, Err(Error::Query("HRESULT Call failed with: 0x80041017".to_string())));
}

#[test]
fn processors_collapse_to_the_last() {
    let rows = vec![processor("CPU0", 8), processor("CPU1", 16)];
    let map = get_cpu(Reply::Answered(rows)).unwrap();
    assert_eq!(map.len(), 3);
    assert_eq!(map.get("DeviceID"), Some(&text("CPU1")));
    assert_eq!(map.get("NumberOfCores"), Some(&Variant::UI4(16)));
    assert_eq!(map.get("Name"), Some(&text("Example CPU")));
}

#[test]
fn single_processor_is_returned() {
    let map = get_cpu(Reply::Answered(vec![processor("CPU0", 4)])).unwrap();
    assert_eq!(map, PropertyMap::from_entries(processor("CPU0", 4)));
}

#[test]
fn processors_without_rows_are_the_empty_mapping() {
    let map = get_cpu(Reply::Answered(Vec::new())).unwrap();
    assert!(map.is_empty());
    assert_eq!(map.len(), 0);
}

#[test]
fn processors_unreachable_is_a_connection_error() {
    let result = get_cpu(Reply::Unreachable("no namespace".to_string()));
    assert_eq!(result, Err(Error::Connection("no namespace".to_string())));
}

#[test]
fn processors_rejected_is_a_query_error() {
    let result = get_cpu(Reply::Rejected("invalid class".to_string()));
    assert_eq!(result, Err(Error::Query("invalid class".to_string())));
}

#[test]
fn products_keep_number_and_order() {
    let antivirus = vec![product("Defender", 397_568), product("Other AV", 266_240)];
    let firewall = vec![product("Wall", 1), product("Fence", 2), product("Moat", 3)];
    let (av, fw) = get_avfw(Reply::Answered((antivirus, firewall))).unwrap();
    assert_eq!(av.len(), 2);
    assert_eq!(fw.len(), 3);
    assert_eq!(av[0].get("displayName"), Some(&text("Defender")));
    assert_eq!(av[0].get("productState"), Some(&Variant::UI4(397_568)));
    assert_eq!(av[1].get("displayName"), Some(&text("Other AV")));
    assert_eq!(fw[0].get("displayName"), Some(&text("Wall")));
    assert_eq!(fw[1].get("displayName"), Some(&text("Fence")));
    assert_eq!(fw[2].get("displayName"), Some(&text("Moat")));
}

#[test]
fn empty_firewall_list_is_a_success() {
    let antivirus = vec![product("Defender", 397_568)];
    let result = get_avfw(Reply::Answered((antivirus, Vec::new())));
    let (av, fw) = result.unwrap();
    assert_eq!(av, vec![PropertyMap::from_entries(product("Defender", 397_568))]);
    assert!(fw.is_empty());
}

#[test]
fn empty_antivirus_list_is_a_success() {
    let firewall = vec![product("Wall", 1)];
    let (av, fw) = get_avfw(Reply::Answered((Vec::new(), firewall))).unwrap();
    assert!(av.is_empty());
    assert_eq!(fw.len(), 1);
}

#[test]
fn both_product_lists_may_be_empty() {
    let result = get_avfw(Reply::Answered((Vec::new(), Vec::new())));
    assert_eq!(result, Ok((Vec::new(), Vec::new())));
}

#[test]
fn products_are_not_mixed() {
    let antivirus = vec![product("Only AV", 1)];
    let firewall = vec![product("Only FW", 2)];
    let (av, fw) = get_avfw(Reply::Answered((antivirus, firewall))).unwrap();
    assert_eq!(av[0].get("displayName"), Some(&text("Only AV")));
    assert_eq!(fw[0].get("displayName"), Some(&text("Only FW")));
}

#[test]
fn products_unreachable_is_a_connection_error() {
    let result = get_avfw(Reply::Unreachable("access denied".to_string()));
    assert_eq!(result, Err(Error::Connection("access denied".to_string())));
}

#[test]
fn products_rejected_is_a_query_error() {
    let result = get_avfw(Reply::Rejected("invalid query".to_string()));
    assert_eq!(result, Err(Error::Query("invalid query".to_string())));
}

#[test]
fn product_key_bytes_are_returned_unchanged() {
    let stored: Vec<u8> = vec![0xa4, 0x00, 0x00, 0x00, 0x03, 0xff, 0x00, 0x7f, 0x80, 0x00];
    assert_eq!(get_key(Ok(stored.clone())), Ok(stored));
}

#[test]
fn product_key_of_every_byte_value_round_trips() {
    let stored: Vec<u8> = (0..=255u8).chain((0..=255u8).rev()).collect();
    let read = get_key(Ok(stored.clone())).unwrap();
    assert_eq!(read.len(), 512);
    assert_eq!(read, stored);
}

#[test]
fn empty_product_key_is_a_success() {
    assert_eq!(get_key(Ok(Vec::new())), Ok(Vec::new()));
}

#[test]
fn product_key_refusal_is_a_registry_error() {
    let result = get_key(Err("The system cannot find the file specified.".to_string()));
    assert_eq!(
        result,
        Err(Error::RegistryAccess("The system cannot find the file specified.".to_string()))
    );
}

#[test]
fn task_listing_is_handed_on() {
    let listing = "IRegisteredTaskCollection(\n    0x000001f2,\n)".to_string();
    assert_eq!(get_tasks(Ok(listing.clone())), Ok(listing));
}

#[test]
fn empty_task_listing_is_a_success() {
    assert_eq!(get_tasks(Ok(String::new())), Ok(String::new()));
}

#[test]
fn task_refusal_is_a_task_service_error() {
    let result = get_tasks(Err("CoInitializeEx failed".to_string()));
    assert_eq!(result, Err(Error::TaskService("CoInitializeEx failed".to_string())));
}

#[test]
fn error_detail_is_the_reason_given() {
    assert_eq!(Error::Connection("a".to_string()).detail(), "a");
    assert_eq!(Error::Query("b".to_string()).detail(), "b");
    assert_eq!(Error::RegistryAccess("c".to_string()).detail(), "c");
    assert_eq!(Error::TaskService(String::new()).detail(), "");
}

#[test]
fn error_kinds_differ() {
    let reason = "same reason".to_string();
    assert_ne!(Error::Connection(reason.clone()), Error::Query(reason.clone()));
    assert_ne!(Error::Query(reason.clone()), Error::RegistryAccess(reason.clone()));
    assert_ne!(Error::RegistryAccess(reason.clone()), Error::TaskService(reason.clone()));
    assert_ne!(Error::Connection("x".to_string()), Error::Connection("y".to_string()));
}

#[test]
fn error_clone_equals_its_source() {
    let error = Error::RegistryAccess("denied".to_string());
    assert_eq!(error.clone(), error);
}

#[test]
fn same_answer_gives_the_same_result() {
    let answer = || Reply::Answered(vec![processor("CPU0", 8), processor("CPU1", 8)]);
    assert_eq!(get_cpu(answer()), get_cpu(answer()));
    assert_eq!(get_cimos(answer()), get_cimos(answer()));
    let products = || Reply::Answered((vec![product("AV", 1)], vec![product("FW", 2)]));
    assert_eq!(get_avfw(products()), get_avfw(products()));
    assert_eq!(get_key(Ok(vec![1, 2, 3])), get_key(Ok(vec![1, 2, 3])));
}

#[test]
fn order_of_properties_in_a_row_does_not_matter() {
    let listed = vec![
        entry("Caption", text("Windows")),
        entry("Version", text("10.0.22631")),
        entry("Locale", text("0409")),
    ];
    let shuffled = vec![
        entry("Locale", text("0409")),
        entry("Caption", text("Windows")),
        entry("Version", text("10.0.22631")),
    ];
    assert_eq!(
        get_cimos(Reply::Answered(vec![listed.clone()])),
        get_cimos(Reply::Answered(vec![shuffled.clone()]))
    );
    assert_eq!(
        get_avfw(Reply::Answered((vec![listed.clone()], vec![shuffled.clone()]))),
        get_avfw(Reply::Answered((vec![shuffled], vec![listed])))
    );
}

#[test]
fn a_different_last_row_gives_a_different_result() {
    let first = get_cpu(Reply::Answered(vec![processor("CPU0", 8), processor("CPU1", 8)]));
    let second = get_cpu(Reply::Answered(vec![processor("CPU1", 8), processor("CPU0", 8)]));
    assert_ne!(first, second);
}

#[test]
fn repeated_name_in_a_row_keeps_the_later_value() {
    let row = vec![entry("Name", text("early")), entry("Name", text("late"))];
    let map = get_cimos(Reply::Answered(vec![row])).unwrap();
    assert_eq!(map.len(), 1);
    assert_eq!(map.get("Name"), Some(&text("late")));
}

#[test]
fn array_values_are_kept() {
    let blob = Variant::Array(vec![Variant::UI1(0xde), Variant::UI1(0xad), Variant::UI1(0xbe)]);
    let row = vec![entry("OEMLogoBitmap", blob.clone()), entry("Status", Variant::Null)];
    let map = get_cimos(Reply::Answered(vec![row])).unwrap();
    assert_eq!(map.get("OEMLogoBitmap"), Some(&blob));
    assert_eq!(map.get("Status"), Some(&Variant::Null));
}
