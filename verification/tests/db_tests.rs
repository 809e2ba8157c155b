use kvsafe::{Env, NullSnapshot, Options, ReadOptions, WriteBatch, WriteOptions, DB};

fn open_new_db(env: &mut Env, name: &str) -> DB {
    let mut options = Options::new();
    options.set_create_if_missing(true);
    options.set_error_if_exists(true);
    DB::open(env, &options, name).unwrap()
}

#[test]
fn db_test_open() {
    let mut env = Env::new();
    let mut options = Options::new();
    options.set_create_if_missing(true);
    options.set_error_if_exists(true);
    assert!(DB::open(&mut env, &options, "db_open").is_ok());
}

#[test]
fn test_destroy() {
    let mut env = Env::new();
    let mut options = Options::new();
    options.set_create_if_missing(true);
    assert!(DB::open(&mut env, &options, "db_destroy").is_ok());

    options.set_create_if_missing(false);
    assert!(DB::open(&mut env, &options, "db_destroy").is_ok());

    assert!(DB::destroy(&mut env, &options, "db_destroy").is_ok());
    assert!(DB::open(&mut env, &options, "db_destroy").is_err());
}

#[test]
fn db_test_get_put_delete() {
    let mut env = Env::new();
    let mut db = open_new_db(&mut env, "db_get_put_delete");

    let read_op = ReadOptions::new();
    assert!(db.get(&read_op, b"foo").unwrap().is_none());

    let write_op = WriteOptions::new();
    assert!(db.put(&write_op, b"foo", b"bar").is_ok());
    assert_eq!(db.get(&read_op, b"foo").unwrap().unwrap().as_ref(), b"bar");

    assert!(db.delete(&write_op, b"foo").is_ok());
    assert!(db.get(&read_op, b"foo").unwrap().is_none());
}

#[test]
fn test_multi_get() {
    let mut env = Env::new();
    let mut db = open_new_db(&mut env, "db_multi_get");

    let read_op = ReadOptions::new();
    let keys = vec![b"foo".to_vec(), b"bar".to_vec()];
    let values = db.multi_get(&read_op, &keys);
    assert!(values[0].as_ref().unwrap().is_none());
    assert!(values[1].as_ref().unwrap().is_none());

    let write_op = WriteOptions::new();
    db.put(&write_op, b"foo", b"bar").unwrap();
    db.put(&write_op, b"bar", b"baz").unwrap();
    let values = db.multi_get(&read_op, &keys);
    assert_eq!(
        values[0].as_ref().unwrap().as_ref().unwrap().as_ref(),
        b"bar"
    );
    assert_eq!(
        values[1].as_ref().unwrap().as_ref().unwrap().as_ref(),
        b"baz"
    );
}

#[test]
fn db_test_write_batch() {
    let mut env = Env::new();
    let mut db = open_new_db(&mut env, "db_write_batch");

    let mut wb = WriteBatch::new();
    assert_eq!(wb.count(), 0);
    wb.put(b"foo", b"bar");
    wb.put(b"bar", b"baz");
    assert_eq!(wb.count(), 2);

    let write_op = WriteOptions::new();
    assert!(db.write(&write_op, &wb).is_ok());

    let read_op = ReadOptions::new();
    let keys = vec![b"foo".to_vec(), b"bar".to_vec()];
    let values = db.multi_get(&read_op, &keys);
    assert_eq!(
        values[0].as_ref().unwrap().as_ref().unwrap().as_ref(),
        b"bar"
    );
    assert_eq!(
        values[1].as_ref().unwrap().as_ref().unwrap().as_ref(),
        b"baz"
    );

    wb.clear();
    assert_eq!(wb.count(), 0);
    wb.delete(b"foo");
    assert!(db.write(&write_op, &wb).is_ok());

    let values = db.multi_get(&read_op, &keys);
    assert!(values[0].as_ref().unwrap().is_none());
    assert_eq!(
        values[1].as_ref().unwrap().as_ref().unwrap().as_ref(),
        b"baz"
    );
}

#[test]
fn db_test_snapshot() {
    let mut env = Env::new();
    let mut db = open_new_db(&mut env, "db_snapshot");
    let sp = db.create_snapshot();

    let write_op = WriteOptions::new();
    db.put(&write_op, b"foo", b"bar").unwrap();

    let mut read_op = ReadOptions::new();
    assert_eq!(db.get(&read_op, b"foo").unwrap().unwrap().as_ref(), b"bar");

    read_op.set_snapshot(&sp);
    assert!(db.get(&read_op, b"foo").unwrap().is_none());

    read_op.set_snapshot(&NullSnapshot);
    assert_eq!(db.get(&read_op, b"foo").unwrap().unwrap().as_ref(), b"bar");
}

#[test]
fn db_test_iterator() {
    let mut env = Env::new();
    let mut db = open_new_db(&mut env, "db_iterator");

    let write_op = WriteOptions::new();
    db.put(&write_op, b"foo1", b"bar1").unwrap();
    db.put(&write_op, b"foo2", b"bar2").unwrap();

    let read_op = ReadOptions::new();
    let mut iter = db.create_iterator(&read_op);
    assert!(!iter.valid());

    iter.seek_to_first();
    assert!(iter.valid());
    assert_eq!(iter.key().as_ref(), b"foo1");
    assert_eq!(iter.value().as_ref(), b"bar1");

    iter.next();
    assert!(iter.valid());
    assert_eq!(iter.key().as_ref(), b"foo2");
    assert_eq!(iter.value().as_ref(), b"bar2");

    iter.next();
    assert!(!iter.valid());

    iter.seek_to_last();
    assert!(iter.valid());
    assert_eq!(iter.key().as_ref(), b"foo2");
    assert_eq!(iter.value().as_ref(), b"bar2");

    iter.prev();
    assert!(iter.valid());
    assert_eq!(iter.key().as_ref(), b"foo1");
    assert_eq!(iter.value().as_ref(), b"bar1");

    iter.prev();
    assert!(!iter.valid());

    iter.seek(b"foo3");
    assert!(!iter.valid());

    iter.seek_for_prev(b"foo3");
    assert!(iter.valid());
}
