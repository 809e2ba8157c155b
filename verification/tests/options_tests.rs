use kvsafe::{Env, Options, DB};

#[test]
fn test_options_create_if_missing() {
    let mut env = Env::new();
    let mut options = Options::new();
    options.set_error_if_exists(true);
    options.set_create_if_missing(false);
    assert_eq!(options.get_create_if_missing(), false);
    assert!(DB::open(&mut env, &options, "options_a").is_err());

    options.set_create_if_missing(true);
    assert_eq!(options.get_create_if_missing(), true);
    assert!(DB::open(&mut env, &options, "options_b").is_ok());
}

#[test]
fn test_options_set_error_if_exists() {
    let mut env = Env::new();
    let mut options = Options::new();
    options.set_create_if_missing(true);
    assert!(DB::open(&mut env, &options, "options_c").is_ok());

    options.set_error_if_exists(false);
    assert_eq!(options.get_error_if_exists(), false);
    assert!(DB::open(&mut env, &options, "options_c").is_ok());

    options.set_error_if_exists(true);
    assert_eq!(options.get_error_if_exists(), true);
    assert!(DB::open(&mut env, &options, "options_c").is_err());
}
