use graceful_shutdown::SubsystemBuilder;

#[test]
fn builder_keeps_name_and_subsystem() {
    let builder = SubsystemBuilder::new(String::from("worker"), 42u32);
    let (name, subsystem) = builder.into_parts();
    assert_eq!(name, "worker");
    assert_eq!(subsystem, 42);
}
