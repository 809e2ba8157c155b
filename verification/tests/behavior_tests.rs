use kvsafe::{
    format_slice, Env, FlushOptions, Options, ReadOptions, TransactionDB, TransactionDBOptions,
    TransactionOptions, WriteBatch, WriteOptions, DB,
};

fn open_db(env: &mut Env, name: &str) -> DB {
    let mut options = Options::new();
    options.set_create_if_missing(true);
    DB::open(env, &options, name).unwrap()
}

fn open_txn_db(env: &mut Env, name: &str) -> TransactionDB {
    let mut options = Options::new();
    options.set_create_if_missing(true);
    let txn_options = TransactionDBOptions::new();
    TransactionDB::open(env, &options, &txn_options, name).unwrap()
}

#[test]
fn unwritten_keys_read_absent() {
    let mut env = Env::new();
    let db = open_db(&mut env, "unwritten");
    let read_op = ReadOptions::new();
    assert!(db.get(&read_op, b"a").unwrap().is_none());
    assert!(db.get(&read_op, b"").unwrap().is_none());
    assert!(db.get(&read_op, b"zzzz").unwrap().is_none());
}

#[test]
fn delete_is_idempotent() {
    let mut env = Env::new();
    let mut db = open_db(&mut env, "idempotent_delete");
    let read_op = ReadOptions::new();
    let write_op = WriteOptions::new();
    db.put(&write_op, b"k", b"v").unwrap();
    assert!(db.delete(&write_op, b"k").is_ok());
    assert!(db.get(&read_op, b"k").unwrap().is_none());
    assert!(db.delete(&write_op, b"k").is_ok());
    assert!(db.get(&read_op, b"k").unwrap().is_none());
}

#[test]
fn overwrite_replaces_value() {
    let mut env = Env::new();
    let mut db = open_db(&mut env, "overwrite");
    let read_op = ReadOptions::new();
    let write_op = WriteOptions::new();
    db.put(&write_op, b"k", b"one").unwrap();
    db.put(&write_op, b"k", b"two").unwrap();
    assert_eq!(db.get(&read_op, b"k").unwrap().unwrap().as_ref(), b"two");
}

#[test]
fn empty_key_and_value() {
    let mut env = Env::new();
    let mut db = open_db(&mut env, "empties");
    let read_op = ReadOptions::new();
    let write_op = WriteOptions::new();
    db.put(&write_op, b"", b"").unwrap();
    assert_eq!(db.get(&read_op, b"").unwrap().unwrap().as_ref(), b"");
    db.delete(&write_op, b"").unwrap();
    assert!(db.get(&read_op, b"").unwrap().is_none());
}

#[test]
fn multi_get_keeps_order_and_independence() {
    let mut env = Env::new();
    let mut db = open_db(&mut env, "multi_order");
    let read_op = ReadOptions::new();
    let write_op = WriteOptions::new();
    db.put(&write_op, b"present", b"yes").unwrap();
    let keys = vec![
        b"absent".to_vec(),
        b"present".to_vec(),
        b"present".to_vec(),
    ];
    let values = db.multi_get(&read_op, &keys);
    assert_eq!(values.len(), 3);
    assert!(values[0].as_ref().unwrap().is_none());
    assert_eq!(
        values[1].as_ref().unwrap().as_ref().unwrap().as_ref(),
        b"yes"
    );
    assert_eq!(
        values[2].as_ref().unwrap().as_ref().unwrap().as_ref(),
        b"yes"
    );
}

#[test]
fn batch_applies_in_insertion_order() {
    let mut env = Env::new();
    let mut db = open_db(&mut env, "batch_order");
    let read_op = ReadOptions::new();
    let write_op = WriteOptions::new();

    let mut wb = WriteBatch::new();
    wb.put(b"k", b"v");
    wb.delete(b"k");
    db.write(&write_op, &wb).unwrap();
    assert!(db.get(&read_op, b"k").unwrap().is_none());

    wb.clear();
    wb.delete(b"k");
    wb.put(b"k", b"v");
    db.write(&write_op, &wb).unwrap();
    assert_eq!(db.get(&read_op, b"k").unwrap().unwrap().as_ref(), b"v");
}

#[test]
fn iterator_honours_bounds() {
    let mut env = Env::new();
    let mut db = open_db(&mut env, "bounds");
    let write_op = WriteOptions::new();
    db.put(&write_op, b"a", b"1").unwrap();
    db.put(&write_op, b"b", b"2").unwrap();
    db.put(&write_op, b"c", b"3").unwrap();
    db.put(&write_op, b"d", b"4").unwrap();

    let mut read_op = ReadOptions::new();
    read_op.set_iterate_lower_bound(b"b");
    read_op.set_iterate_upper_bound(b"d");
    let mut iter = db.create_iterator(&read_op);

    iter.seek_to_first();
    assert!(iter.valid());
    assert_eq!(iter.key().as_ref(), b"b");
    iter.next();
    assert!(iter.valid());
    assert_eq!(iter.key().as_ref(), b"c");
    iter.next();
    assert!(!iter.valid());
}

#[test]
fn iterator_orders_keys_of_unequal_length() {
    let mut env = Env::new();
    let mut db = open_db(&mut env, "lex_order");
    let write_op = WriteOptions::new();
    db.put(&write_op, b"b", b"3").unwrap();
    db.put(&write_op, b"ab", b"2").unwrap();
    db.put(&write_op, b"a", b"1").unwrap();

    let read_op = ReadOptions::new();
    let mut iter = db.create_iterator(&read_op);
    iter.seek_to_first();
    assert_eq!(iter.key().as_ref(), b"a");
    iter.next();
    assert_eq!(iter.key().as_ref(), b"ab");
    iter.next();
    assert_eq!(iter.key().as_ref(), b"b");
    iter.next();
    assert!(!iter.valid());
}

#[test]
fn iterator_on_empty_store_stays_invalid() {
    let mut env = Env::new();
    let db = open_db(&mut env, "empty_iter");
    let read_op = ReadOptions::new();
    let mut iter = db.create_iterator(&read_op);
    assert!(!iter.valid());
    iter.seek_to_first();
    assert!(!iter.valid());
    iter.seek_to_last();
    assert!(!iter.valid());
    iter.seek(b"a");
    assert!(!iter.valid());
    iter.seek_for_prev(b"a");
    assert!(!iter.valid());
    assert!(iter.get_error().is_none());
}

#[test]
fn seek_lands_on_equal_key() {
    let mut env = Env::new();
    let mut db = open_db(&mut env, "seek_equal");
    let write_op = WriteOptions::new();
    db.put(&write_op, b"b", b"2").unwrap();

    let read_op = ReadOptions::new();
    let mut iter = db.create_iterator(&read_op);
    iter.seek(b"b");
    assert!(iter.valid());
    assert_eq!(iter.key().as_ref(), b"b");
    iter.seek_for_prev(b"b");
    assert!(iter.valid());
    assert_eq!(iter.key().as_ref(), b"b");
    iter.seek_for_prev(b"a");
    assert!(!iter.valid());
}

#[test]
fn open_missing_without_create_fails() {
    let mut env = Env::new();
    let options = Options::new();
    let r = DB::open(&mut env, &options, "never_created");
    assert!(r.is_err());
    assert_eq!(r.err().unwrap().message(), "store does not exist");
}

#[test]
fn open_existing_with_error_if_exists_fails() {
    let mut env = Env::new();
    let mut options = Options::new();
    options.set_create_if_missing(true);
    assert!(DB::open(&mut env, &options, "twice").is_ok());
    options.set_error_if_exists(true);
    let r = DB::open(&mut env, &options, "twice");
    assert!(r.is_err());
    assert_eq!(r.err().unwrap().message(), "store already exists");
}

#[test]
fn repair_succeeds_only_on_existing_store() {
    let mut env = Env::new();
    let mut options = Options::new();
    options.set_create_if_missing(true);
    assert!(DB::open(&mut env, &options, "repairable").is_ok());
    assert!(DB::repair(&mut env, &options, "repairable").is_ok());
    assert!(DB::repair(&mut env, &options, "missing").is_err());
}

#[test]
fn flush_persists_contents_for_reopen() {
    let mut env = Env::new();
    let mut db = open_db(&mut env, "durable");
    let write_op = WriteOptions::new();
    db.put(&write_op, b"k", b"v").unwrap();
    let flush_op = FlushOptions::new();
    assert!(db.flush(&mut env, &flush_op).is_ok());
    drop(db);

    let options = Options::new();
    let db2 = DB::open(&mut env, &options, "durable").unwrap();
    let read_op = ReadOptions::new();
    assert_eq!(db2.get(&read_op, b"k").unwrap().unwrap().as_ref(), b"v");
}

#[test]
fn unflushed_writes_are_not_persisted() {
    let mut env = Env::new();
    let mut db = open_db(&mut env, "volatile");
    let write_op = WriteOptions::new();
    db.put(&write_op, b"k", b"v").unwrap();
    drop(db);

    let options = Options::new();
    let db2 = DB::open(&mut env, &options, "volatile").unwrap();
    let read_op = ReadOptions::new();
    assert!(db2.get(&read_op, b"k").unwrap().is_none());
}

#[test]
fn rollback_discards_staged_writes() {
    let mut env = Env::new();
    let mut db = open_txn_db(&mut env, "txn_rollback");
    let write_op = WriteOptions::new();
    let txn_op = TransactionOptions::new();
    let mut txn = db.begin(&write_op, &txn_op, None);
    txn.put(b"k", b"v").unwrap();
    assert!(txn.rollback().is_ok());

    let read_op = ReadOptions::new();
    assert!(db.get(&read_op, b"k").unwrap().is_none());
    // the borrow checker would reject any later use of the transaction here
    let mut txn2 = db.begin(&write_op, &txn_op, None);
    txn2.put(b"k", b"v").unwrap();
    txn2.commit(&mut db).unwrap();
    assert_eq!(db.get(&read_op, b"k").unwrap().unwrap().as_ref(), b"v");
}

#[test]
fn reused_token_starts_a_clean_transaction() {
    let mut env = Env::new();
    let mut db = open_txn_db(&mut env, "txn_reuse");
    let write_op = WriteOptions::new();
    let txn_op = TransactionOptions::new();

    let mut txn = db.begin(&write_op, &txn_op, None);
    txn.put(b"a", b"1").unwrap();
    let token = txn.commit(&mut db).unwrap();

    let read_op = ReadOptions::new();
    let mut txn2 = db.begin(&write_op, &txn_op, Some(token));
    // no residual state: the staged log is empty, reads see the store
    assert_eq!(txn2.get(&read_op, b"a").unwrap().unwrap().as_ref(), b"1");
    assert!(txn2.get(&read_op, b"b").unwrap().is_none());
    txn2.put(b"b", b"2").unwrap();
    assert!(txn2.commit(&mut db).is_ok());
    assert_eq!(db.get(&read_op, b"b").unwrap().unwrap().as_ref(), b"2");
}

#[test]
fn savepoints_roll_back_partial_work() {
    let mut env = Env::new();
    let db = open_txn_db(&mut env, "txn_savepoints");
    let write_op = WriteOptions::new();
    let txn_op = TransactionOptions::new();
    let read_op = ReadOptions::new();

    let mut txn = db.begin(&write_op, &txn_op, None);
    assert!(txn.rollback_to_savepoint().is_err());

    txn.put(b"a", b"1").unwrap();
    txn.set_savepoint();
    txn.put(b"b", b"2").unwrap();
    txn.delete(b"a").unwrap();
    assert!(txn.get(&read_op, b"a").unwrap().is_none());

    assert!(txn.rollback_to_savepoint().is_ok());
    assert_eq!(txn.get(&read_op, b"a").unwrap().unwrap().as_ref(), b"1");
    assert!(txn.get(&read_op, b"b").unwrap().is_none());
    assert!(txn.rollback_to_savepoint().is_err());
}

#[test]
fn get_for_update_reads_like_get() {
    let mut env = Env::new();
    let db = open_txn_db(&mut env, "txn_for_update");
    let write_op = WriteOptions::new();
    let txn_op = TransactionOptions::new();
    let read_op = ReadOptions::new();

    let mut txn = db.begin(&write_op, &txn_op, None);
    assert!(txn.get_for_update(&read_op, b"k", true).unwrap().is_none());
    txn.put(b"k", b"v").unwrap();
    assert_eq!(
        txn.get_for_update(&read_op, b"k", false)
            .unwrap()
            .unwrap()
            .as_ref(),
        b"v"
    );
}

#[test]
fn transaction_snapshot_follows_options() {
    let mut env = Env::new();
    let mut db = open_txn_db(&mut env, "txn_snapshot");
    let write_op = WriteOptions::new();
    let read_op = ReadOptions::new();

    db.put(&write_op, b"k", b"old").unwrap();

    let mut txn_op = TransactionOptions::new();
    let txn_plain = db.begin(&write_op, &txn_op, None);
    assert!(txn_plain.get_snapshot().is_none());
    drop(txn_plain);

    txn_op.set_set_snapshot(true);
    let txn = db.begin(&write_op, &txn_op, None);
    let snap = txn.get_snapshot().unwrap();

    db.put(&write_op, b"k", b"new").unwrap();

    let mut snap_read = ReadOptions::new();
    snap_read.set_snapshot(&snap);
    assert_eq!(
        db.get(&snap_read, b"k").unwrap().unwrap().as_ref(),
        b"old"
    );
    assert_eq!(db.get(&read_op, b"k").unwrap().unwrap().as_ref(), b"new");
}

#[test]
fn transaction_iterator_sees_staged_writes() {
    let mut env = Env::new();
    let mut db = open_txn_db(&mut env, "txn_iter");
    let write_op = WriteOptions::new();
    let txn_op = TransactionOptions::new();

    db.put(&write_op, b"a", b"1").unwrap();
    db.put(&write_op, b"c", b"3").unwrap();

    let mut txn = db.begin(&write_op, &txn_op, None);
    txn.put(b"b", b"2").unwrap();
    txn.delete(b"c").unwrap();

    let read_op = ReadOptions::new();
    let mut iter = txn.create_iterator(&read_op);
    iter.seek_to_first();
    assert!(iter.valid());
    assert_eq!(iter.key().as_ref(), b"a");
    iter.next();
    assert!(iter.valid());
    assert_eq!(iter.key().as_ref(), b"b");
    assert_eq!(iter.value().as_ref(), b"2");
    iter.next();
    assert!(!iter.valid());
}

#[test]
fn format_slice_renders_escapes() {
    assert_eq!(format_slice(b"ab"), "\"ab\"");
    assert_eq!(format_slice(b""), "\"\"");
    assert_eq!(format_slice(b"a\nb"), "\"a\\nb\"");
    assert_eq!(format_slice(b"\t\r"), "\"\\t\\r\"");
    assert_eq!(format_slice(b"q\"q"), "\"q\\\"q\"");
    assert_eq!(format_slice(b"\\'"), "\"\\\\\\'\"");
    assert_eq!(format_slice(&[0x01u8]), "\"\\x01\"");
    assert_eq!(format_slice(&[0xffu8]), "\"\\xff\"");
    assert_eq!(format_slice(&[0x7fu8]), "\"\\x7f\"");
}

#[test]
fn bytes_round_trip_through_views() {
    let mut env = Env::new();
    let mut db = open_db(&mut env, "bytes_views");
    let write_op = WriteOptions::new();
    let read_op = ReadOptions::new();
    db.put(&write_op, b"k", b"payload").unwrap();
    let got = db.get(&read_op, b"k").unwrap().unwrap();
    assert_eq!(got.as_ref(), b"payload");
    assert_eq!(got.into_vec(), b"payload".to_vec());
}
