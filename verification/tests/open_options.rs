use cycle::fs::OpenOptions;

#[test]
fn new_options_have_every_flag_off() {
    let o = OpenOptions::new();
    assert!(!o.is_read());
    assert!(!o.is_write());
    assert!(!o.is_append());
    assert!(!o.is_truncate());
    assert!(!o.is_create());
    assert!(!o.is_create_new());
    assert_eq!(o, OpenOptions::default());
}

#[test]
fn options_chain_and_set_one_flag_each() {
    let mut o = OpenOptions::new();
    o.write(true).create(true).truncate(true);
    assert!(!o.is_read());
    assert!(o.is_write());
    assert!(!o.is_append());
    assert!(o.is_truncate());
    assert!(o.is_create());
    assert!(!o.is_create_new());
    o.read(true).append(true).create_new(true).write(false);
    assert!(o.is_read());
    assert!(!o.is_write());
    assert!(o.is_append());
    assert!(o.is_create_new());
}
