use kvsafe::{
    Env, Options, ReadOptions, TransactionDB, TransactionDBOptions, TransactionOptions,
    WriteOptions,
};

fn open_new_db(env: &mut Env, name: &str) -> TransactionDB {
    let mut options = Options::new();
    options.set_create_if_missing(true);
    options.set_error_if_exists(true);
    let txn_options = TransactionDBOptions::new();
    TransactionDB::open(env, &options, &txn_options, name).unwrap()
}

#[test]
fn transaction_test_get_put_delete() {
    let mut env = Env::new();
    let db = open_new_db(&mut env, "txn_get_put_delete");

    let write_op = WriteOptions::new();
    let txn_op = TransactionOptions::new();
    let mut txn = db.begin(&write_op, &txn_op, None);

    let read_op = ReadOptions::new();
    assert!(txn.get(&read_op, b"foo").unwrap().is_none());

    assert!(txn.put(b"foo", b"bar").is_ok());
    assert_eq!(txn.get(&read_op, b"foo").unwrap().unwrap().as_ref(), b"bar");

    assert!(txn.delete(b"foo").is_ok());
    assert!(txn.get(&read_op, b"foo").unwrap().is_none());
}

#[test]
fn test_commit() {
    let mut env = Env::new();
    let mut db = open_new_db(&mut env, "txn_commit");

    let write_op = WriteOptions::new();
    let txn_op = TransactionOptions::new();
    let mut txn = db.begin(&write_op, &txn_op, None);

    let read_op = ReadOptions::new();
    assert!(db.get(&read_op, b"foo").unwrap().is_none());

    assert!(txn.put(b"foo", b"bar").is_ok());

    let read_op = ReadOptions::new();
    assert!(db.get(&read_op, b"foo").unwrap().is_none());

    assert!(txn.commit(&mut db).is_ok());
    assert_eq!(db.get(&read_op, b"foo").unwrap().unwrap().as_ref(), b"bar");
}
