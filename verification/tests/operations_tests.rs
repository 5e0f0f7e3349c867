use tedge_gateway::smartrest::operations::{
    is_valid_operation_name, FileContent, OnMessageExec, Operation, OperationFile, Operations,
    OperationsError,
};

fn operation(name: &str, on_message: Option<&str>, topic: Option<&str>) -> Operation {
    Operation::new(
        name.to_string(),
        Some(OnMessageExec::new(
            Some("echo".to_string()),
            on_message.map(|s| s.to_string()),
            topic.map(|s| s.to_string()),
            None,
        )),
    )
}

fn files(count: usize) -> Vec<OperationFile> {
    (0..count)
        .map(|i| OperationFile {
            file_name: format!("operation{}", i),
            content: FileContent::Parsed(operation("", Some("511"), None)),
        })
        .collect()
}

fn get_operations_all(ops_count: usize) {
    let operations = Operations::try_new(&files(ops_count)).unwrap();
    assert_eq!(operations.get_operations_list().len(), ops_count);
}

#[test]
fn get_operations_all_0() {
    get_operations_all(0);
}

#[test]
fn get_operations_all_1() {
    get_operations_all(1);
}

#[test]
fn get_operations_all_5() {
    get_operations_all(5);
}

#[test]
fn operation_name_should_contain_only_alphabetic_chars() {
    let cases = [
        ("file_a?", false),
        ("~file_b", false),
        ("c8y_Command", true),
        ("c8y_CommandA~", false),
        (".c8y_CommandB", false),
        ("c8y_CommandD?", false),
        ("c8y_CommandE?!£$%^&*(", false),
        ("?!£$%^&*(c8y_CommandF?!£$%^&*(", false),
    ];
    for (operation, expected_result) in cases {
        assert_eq!(is_valid_operation_name(operation), expected_result, "{}", operation);
    }
}

#[test]
fn operation_names_may_hold_numbers_of_any_script() {
    assert!(is_valid_operation_name(""));
    assert!(is_valid_operation_name("op_42"));
    assert!(is_valid_operation_name("op٣"));
    assert!(!is_valid_operation_name("opé"));
    assert!(!is_valid_operation_name("a b"));
}

#[test]
fn operations_take_the_names_of_their_files() {
    let operations = Operations::try_new(&files(3)).unwrap();
    assert_eq!(operations.get_operations_list(), vec!["operation0", "operation1", "operation2"]);
}

#[test]
fn files_with_other_names_are_passed_over() {
    let mut all = files(2);
    all.insert(
        1,
        OperationFile {
            file_name: "operation1~".to_string(),
            content: FileContent::Malformed("not toml".to_string()),
        },
    );
    let operations = Operations::try_new(&all).unwrap();
    assert_eq!(operations.get_operations_list(), vec!["operation0", "operation1"]);
}

#[test]
fn the_first_bad_file_is_an_error() {
    let mut all = files(2);
    all.push(OperationFile {
        file_name: "broken".to_string(),
        content: FileContent::Malformed("expected a table".to_string()),
    });
    all.push(OperationFile {
        file_name: "unreadable".to_string(),
        content: FileContent::Unreadable("permission denied".to_string()),
    });
    match Operations::try_new(&all) {
        Err(OperationsError::TomlError { file_name, reason }) => {
            assert_eq!(file_name, "broken");
            assert_eq!(reason, "expected a table");
        }
        _ => panic!("an error was expected"),
    }
    all.remove(2);
    match Operations::try_new(&all) {
        Err(OperationsError::FromIo { file_name, reason }) => {
            assert_eq!(file_name, "unreadable");
            assert_eq!(reason, "permission denied");
        }
        _ => panic!("an error was expected"),
    }
}

#[test]
fn an_operation_is_added_once() {
    let mut operations = Operations::new();
    operations.add_operation(operation("c8y_Restart", Some("510"), None));
    operations.add_operation(operation("c8y_Restart", Some("999"), None));
    assert_eq!(operations.get_operations_list(), vec!["c8y_Restart"]);
    assert!(operations.matching_smartrest_template("999").is_none());
    assert_eq!(operations.matching_smartrest_template("510").unwrap().name, "c8y_Restart");
}

#[test]
fn templates_lead_to_their_operations() {
    let mut operations = Operations::new();
    operations.add_operation(operation("a", Some("511"), None));
    operations.add_operation(operation("b", None, None));
    operations.add_operation(operation("c", Some("522"), None));
    operations.add_operation(Operation::new("d".to_string(), None));
    assert_eq!(operations.matching_smartrest_template("511").unwrap().name, "a");
    assert_eq!(operations.matching_smartrest_template("522").unwrap().name, "c");
    assert!(operations.matching_smartrest_template("500").is_none());
    // a later operation takes the template over
    operations.add_operation(operation("e", Some("511"), None));
    assert_eq!(operations.matching_smartrest_template("511").unwrap().name, "e");
}

#[test]
fn removing_an_operation_leaves_the_templates_as_they_were() {
    let mut operations = Operations::new();
    operations.add_operation(operation("a", Some("511"), None));
    operations.add_operation(operation("b", Some("522"), None));
    operations.remove_operation("a");
    assert_eq!(operations.get_operations_list(), vec!["b"]);
    // the place recorded for 511 is now that of b, and that for 522 is empty
    assert_eq!(operations.matching_smartrest_template("511").unwrap().name, "b");
    assert!(operations.matching_smartrest_template("522").is_none());
    operations.remove_operation("unknown");
    assert_eq!(operations.get_operations_list(), vec!["b"]);
}

#[test]
fn operation_details() {
    let op = operation("a", Some("511"), Some("c8y/s/ds"));
    assert_eq!(op.command(), Some("echo".to_string()));
    assert_eq!(op.topic(), Some("c8y/s/ds".to_string()));
    assert_eq!(op.exec_detail().unwrap().on_message(), Some(&"511".to_string()));
    assert_eq!(op.exec_detail().unwrap().user(), None);
    let bare = Operation::new("b".to_string(), None);
    assert!(bare.exec_detail().is_none());
    assert_eq!(bare.command(), None);
    assert_eq!(bare.topic(), None);
}

#[test]
fn topics_are_listed_once() {
    let mut operations = Operations::new();
    operations.add_operation(operation("a", None, Some("t1")));
    operations.add_operation(operation("b", None, Some("t2")));
    operations.add_operation(operation("c", None, Some("t1")));
    operations.add_operation(operation("d", None, None));
    assert_eq!(operations.topics_for_operations(), vec!["t1", "t2"]);
}

#[test]
fn supported_operations_are_told_in_the_order_of_the_dictionary() {
    let mut operations = Operations::new();
    for name in ["c8y_Restart", "c8y_Command", "c8y_Firmware", "Zeta", "alpha"] {
        operations.add_operation(operation(name, None, None));
    }
    assert_eq!(
        operations.create_smartrest_ops_message().unwrap(),
        "114,Zeta,alpha,c8y_Command,c8y_Firmware,c8y_Restart"
    );
    assert_eq!(Operations::new().create_smartrest_ops_message().unwrap(), "114");
}

#[test]
fn too_many_operations_do_not_fit() {
    let mut operations = Operations::new();
    for i in 0..2000 {
        operations.add_operation(operation(&format!("operation_{:05}", i), None, None));
    }
    assert!(operations.create_smartrest_ops_message().is_err());
}
