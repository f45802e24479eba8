use rspc::error::ServerError;
use rspc::registry::ServiceTable;

fn names(v: &[&str]) -> Vec<String> {
    v.iter().map(|s| s.to_string()).collect()
}

#[test]
fn registration_assigns_contiguous_ids() {
    let mut table = ServiceTable::new();
    assert_eq!(table.num_methods(), 0);

    let first_a = table.register_service("HelloServer", &names(&["hello", "hello_stream"]));
    assert_eq!(first_a, 0);
    assert_eq!(table.num_methods(), 2);

    let first_b = table.register_service("EchoServer", &names(&["echo"]));
    assert_eq!(first_b, 2);
    assert_eq!(table.num_methods(), 3);

    let m0 = table.get_service(0).unwrap();
    assert_eq!(m0.service_index, 0);
    assert_eq!(m0.method_index, 0);
    assert_eq!(m0.service_name().as_str(), "HelloServer");
    assert_eq!(m0.method_name().as_str(), "hello");

    let m1 = table.get_service(1).unwrap();
    assert_eq!(m1.service_index, 0);
    assert_eq!(m1.method_index, 1);
    assert_eq!(m1.method_name().as_str(), "hello_stream");

    let m2 = table.get_service(2).unwrap();
    assert_eq!(m2.service_index, 1);
    assert_eq!(m2.method_index, 0);
    assert_eq!(m2.service_name().as_str(), "EchoServer");
    assert_eq!(m2.method_name().as_str(), "echo");
}

#[test]
fn lookup_of_unregistered_id_fails() {
    let mut table = ServiceTable::new();
    table.register_service("HelloServer", &names(&["hello"]));
    let err = table.get_service(1);
    assert!(matches!(err, Err(ServerError::ErrorServiceMethodId())));
    let err = table.get_service(u32::MAX);
    assert!(matches!(err, Err(ServerError::ErrorServiceMethodId())));
}

#[test]
fn list_service_reports_all_methods_in_order() {
    let mut table = ServiceTable::new();
    table.register_service("HelloServer", &names(&["hello", "hello_stream"]));
    table.register_service("EchoServer", &names(&["echo"]));
    let listing = table.list_service();
    assert_eq!(
        listing,
        vec![
            ("HelloServer".to_string(), "hello".to_string()),
            ("HelloServer".to_string(), "hello_stream".to_string()),
            ("EchoServer".to_string(), "echo".to_string()),
        ]
    );
}

#[test]
fn empty_table_rejects_every_id() {
    let table = ServiceTable::new();
    assert!(matches!(
        table.get_service(0),
        Err(ServerError::ErrorServiceMethodId())
    ));
    assert!(table.list_service().is_empty());
}
