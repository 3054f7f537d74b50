use memory_image_viewer::{
    buffer_length, check_process_filter, dump_file_name, dump_search_step, parse_address, plan_read, Config, DataType,
    ImageProcessingError, ReadRequest,
};

#[test]
fn parses_hex_addresses() {
    assert_eq!(parse_address("0x1F"), Ok(31));
    assert_eq!(parse_address("1f"), Ok(31));
    assert_eq!(parse_address("0X10"), Ok(16));
    assert_eq!(parse_address("0"), Ok(0));
    assert_eq!(parse_address("0x7ffdeadbeef0"), Ok(0x7ffdeadbeef0));
}

#[test]
fn refuses_malformed_addresses() {
    for text in ["", "0x", "zz", "0x0x10", "12g", "+10", " 10", "0x1ffffffffffffffffffff"] {
        assert_eq!(parse_address(text), Err(ImageProcessingError::MalformedAddress), "{}", text);
    }
}

#[test]
fn process_filter() {
    assert!(check_process_filter("123", "Firefox", ""));
    assert!(check_process_filter("123", "Firefox", "12"));
    assert!(check_process_filter("123", "Firefox", "FIRE"));
    assert!(check_process_filter("123", "FIREFOX", "fox"));
    assert!(!check_process_filter("123", "Firefox", "chrome"));
    assert!(!check_process_filter("123", "Firefox", "1234"));
}

#[test]
fn config_is_filled() {
    let mut config = Config::default();
    assert!(!config.is_filled());
    assert_eq!(config.data_type, DataType::CV_8UC3);
    assert_eq!(config.pid_label, "☰ Not selected!");
    assert_eq!(config.address, "");
    config.pid = 42;
    config.address = String::from("0xff");
    config.width = 3;
    config.height = 2;
    assert!(config.is_filled());
    let other = config.clone();
    assert!(config == other);
    config.address = String::from("0xfg");
    assert!(!config.is_filled());
    assert!(config != other);
}

#[test]
fn read_plan() {
    assert_eq!(buffer_length(DataType::CV_16UC3, 4, 5), Some(120));
    let plan = plan_read(7, "0x100", 4, 5, DataType::CV_32FC2).unwrap();
    assert_eq!(plan, ReadRequest { pid: 7, address: 256, length: 160 });
    assert!(plan.needs_read());
    let empty = plan_read(7, "100", 0, 5, DataType::CV_32FC2).unwrap();
    assert!(!empty.needs_read());
    assert_eq!(
        plan_read(7, "0xq", 4, 5, DataType::CV_8UC1),
        Err(ImageProcessingError::MalformedAddress)
    );
    if usize::BITS == 64 {
        assert_eq!(buffer_length(DataType::CV_64FC4, u32::MAX, u32::MAX), None);
        assert_eq!(
            plan_read(7, "0x10", u32::MAX, u32::MAX, DataType::CV_64FC4),
            Err(ImageProcessingError::PreconditionViolation)
        );
    }
}

#[test]
fn config_read_request() {
    let mut config = Config::default();
    config.pid = 9;
    config.address = String::from("0x20");
    config.width = 2;
    config.height = 2;
    config.data_type = DataType::CV_16UC4;
    assert_eq!(
        config.read_request(),
        Ok(ReadRequest { pid: 9, address: 32, length: 32 })
    );
}

#[test]
fn dump_file_names() {
    assert_eq!(dump_file_name("010124_10_00_00", 0), "010124_10_00_00.png");
    assert_eq!(dump_file_name("010124_10_00_00", 1), "010124_10_00_00(1).png");
    assert_eq!(dump_file_name("s", 305), "s(305).png");
}

#[test]
fn dump_search_steps() {
    assert_eq!(dump_search_step(0, false), None);
    assert_eq!(dump_search_step(0, true), Some(1));
    assert_eq!(dump_search_step(41, true), Some(42));
    assert_eq!(dump_search_step(u32::MAX, true), None);
}
