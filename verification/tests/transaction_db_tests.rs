use kvsafe::{
    Env, NullSnapshot, Options, ReadOptions, TransactionDB, TransactionDBOptions, WriteBatch,
    WriteOptions,
};

fn open_new_db(env: &mut Env, name: &str) -> TransactionDB {
    let mut options = Options::new();
    options.set_create_if_missing(true);
    options.set_error_if_exists(true);
    let txn_options = TransactionDBOptions::new();
    TransactionDB::open(env, &options, &txn_options, name).unwrap()
}

#[test]
fn transaction_db_test_open() {
    let mut env = Env::new();
    let mut options = Options::new();
    options.set_create_if_missing(true);
    options.set_error_if_exists(true);
    let txn_options = TransactionDBOptions::new();
    assert!(TransactionDB::open(&mut env, &options, &txn_options, "txn_db_open").is_ok());
}

#[test]
fn transaction_db_test_get_put_delete() {
    let mut env = Env::new();
    let mut db = open_new_db(&mut env, "txn_db_get_put_delete");

    let read_op = ReadOptions::new();
    assert!(db.get(&read_op, b"foo").unwrap().is_none());

    let write_op = WriteOptions::new();
    assert!(db.put(&write_op, b"foo", b"bar").is_ok());
    assert_eq!(db.get(&read_op, b"foo").unwrap().unwrap().as_ref(), b"bar");

    assert!(db.delete(&write_op, b"foo").is_ok());
    assert!(db.get(&read_op, b"foo").unwrap().is_none());
}

#[test]
fn transaction_db_test_write_batch() {
    let mut env = Env::new();
    let mut db = open_new_db(&mut env, "txn_db_write_batch");

    let mut wb = WriteBatch::new();
    assert_eq!(wb.count(), 0);
    wb.put(b"foo", b"bar");
    wb.put(b"bar", b"baz");
    assert_eq!(wb.count(), 2);

    let write_op = WriteOptions::new();
    assert!(db.write(&write_op, &wb).is_ok());

    let read_op = ReadOptions::new();
    assert_eq!(db.get(&read_op, b"foo").unwrap().unwrap().as_ref(), b"bar");
    assert_eq!(db.get(&read_op, b"bar").unwrap().unwrap().as_ref(), b"baz");

    wb.clear();
    assert_eq!(wb.count(), 0);
    wb.delete(b"foo");
    assert!(db.write(&write_op, &wb).is_ok());
    assert!(db.get(&read_op, b"foo").unwrap().is_none());
    assert_eq!(db.get(&read_op, b"bar").unwrap().unwrap().as_ref(), b"baz");
}

#[test]
fn transaction_db_test_snapshot() {
    let mut env = Env::new();
    let mut db = open_new_db(&mut env, "txn_db_snapshot");
    let sp = db.create_snapshot();

    let write_op = WriteOptions::new();
    db.put(&write_op, b"foo", b"bar").unwrap();

    let mut read_op = ReadOptions::new();
    assert_eq!(db.get(&read_op, b"foo").unwrap().unwrap().as_ref(), b"bar");

    read_op.set_snapshot(&sp);
    assert!(db.get(&read_op, b"foo").unwrap().is_none());

    read_op.set_snapshot(&NullSnapshot);
    assert_eq!(db.get(&read_op, b"foo").unwrap().unwrap().as_ref(), b"bar");
}

#[test]
fn transaction_db_test_iterator() {
    let mut env = Env::new();
    let mut db = open_new_db(&mut env, "txn_db_iterator");

    let write_op = WriteOptions::new();
    db.put(&write_op, b"foo1", b"bar1").unwrap();
    db.put(&write_op, b"foo2", b"bar2").unwrap();

    let read_op = ReadOptions::new();
    let mut iter = db.create_iterator(&read_op);
    assert!(!iter.valid());

    iter.seek_to_first();
    assert!(iter.valid());
    assert_eq!(iter.key().as_ref(), b"foo1");
    assert_eq!(iter.value().as_ref(), b"bar1");

    iter.next();
    assert!(iter.valid());
    assert_eq!(iter.key().as_ref(), b"foo2");
    assert_eq!(iter.value().as_ref(), b"bar2");

    iter.next();
    assert!(!iter.valid());

    iter.seek_to_last();
    assert!(iter.valid());
    assert_eq!(iter.key().as_ref(), b"foo2");
    assert_eq!(iter.value().as_ref(), b"bar2");

    iter.prev();
    assert!(iter.valid());
    assert_eq!(iter.key().as_ref(), b"foo1");
    assert_eq!(iter.value().as_ref(), b"bar1");

    iter.prev();
    assert!(!iter.valid());

    iter.seek(b"foo3");
    assert!(!iter.valid());

    iter.seek_for_prev(b"foo3");
    assert!(iter.valid());
}
