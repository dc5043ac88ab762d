use codebase_index::cli::{
    knows_root, parse_arguments, parse_command, parse_port, Arguments, Command, InvalidPort,
    DEFAULT_PORT, UPDATE_INTERVAL_SECONDS,
};

fn strings(values: &[&str]) -> Vec<String> {
    values.iter().map(|value| value.to_string()).collect()
}

#[test]
fn the_menu_has_three_choices() {
    assert_eq!(parse_command("1"), Command::Ingest);
    assert_eq!(parse_command("2"), Command::Update);
    assert_eq!(parse_command("3"), Command::Exit);
    for input in ["", "0", "4", "11", " 1", "1 ", "one", "1\n"] {
        assert_eq!(parse_command(input), Command::Invalid);
    }
}

#[test]
fn an_update_needs_a_root_that_the_store_lists() {
    let listed = strings(&["root-1", "root-2"]);
    assert!(knows_root(&listed, "root-1"));
    assert!(knows_root(&listed, "root-2"));
    assert!(!knows_root(&listed, ""));
    assert!(!knows_root(&listed, "root"));
    assert!(!knows_root(&vec![], ""));
}

#[test]
fn a_port_is_a_decimal_number_up_to_65535() {
    assert_eq!(parse_port("0"), Some(0));
    assert_eq!(parse_port("6969"), Some(6969));
    assert_eq!(parse_port("65535"), Some(65535));
    assert_eq!(parse_port("+80"), Some(80));
    assert_eq!(parse_port("0000000000000000000080"), Some(80));
    assert_eq!(parse_port("65536"), None);
    assert_eq!(parse_port("99999999999999999999999999"), None);
    assert_eq!(parse_port(""), None);
    assert_eq!(parse_port("+"), None);
    assert_eq!(parse_port("-1"), None);
    assert_eq!(parse_port("++1"), None);
    assert_eq!(parse_port("1+"), None);
    assert_eq!(parse_port(" 80"), None);
    assert_eq!(parse_port("80 "), None);
    assert_eq!(parse_port("8o"), None);
    assert_eq!(parse_port("0x50"), None);
    assert_eq!(parse_port("８０"), None);
}

#[test]
fn a_port_is_read_as_the_standard_library_reads_it() {
    let mut cases: Vec<String> = (0u32..70000).step_by(7).map(|n| n.to_string()).collect();
    cases.extend(strings(&[
        "65533", "65534", "65535", "65536", "65537", "+1", "+0", "01", "1a", "a1", "/", ":",
    ]));
    for text in cases {
        assert_eq!(parse_port(&text), text.parse::<u16>().ok(), "{:?}", text);
    }
}

#[test]
fn arguments_default_to_sample_and_6969() {
    assert_eq!(DEFAULT_PORT, 6969);
    assert_eq!(UPDATE_INTERVAL_SECONDS, 5);
    assert_eq!(
        parse_arguments(&strings(&["indexer"])),
        Ok(Arguments { path: "sample".to_string(), port: 6969 })
    );
    assert_eq!(parse_arguments(&vec![]), Ok(Arguments { path: "sample".to_string(), port: 6969 }));
    assert_eq!(
        parse_arguments(&strings(&["indexer", "src"])),
        Ok(Arguments { path: "src".to_string(), port: 6969 })
    );
    assert_eq!(
        parse_arguments(&strings(&["indexer", "src", "7000", "ignored"])),
        Ok(Arguments { path: "src".to_string(), port: 7000 })
    );
}

#[test]
fn a_second_argument_that_is_no_port_is_refused() {
    assert_eq!(parse_arguments(&strings(&["indexer", "src", "port"])), Err(InvalidPort));
    assert_eq!(parse_arguments(&strings(&["indexer", "src", "70000"])), Err(InvalidPort));
    assert_eq!(parse_arguments(&strings(&["indexer", "src", ""])), Err(InvalidPort));
}
