use easy_safe_pack::{
    create_or_load_late_save_map_env, create_or_load_map_env, env_default_at, StoreError,
};

#[test]
fn round_trip_unique_keys_eager() {
    let mut file: Option<String> = None;
    let mut env = create_or_load_map_env("rt_eager", &mut file);
    assert_eq!(env.put("alpha", "1", &mut file).unwrap(), None);
    assert_eq!(env.put("beta", "2", &mut file).unwrap(), None);
    assert_eq!(env.put("gamma", "3", &mut file).unwrap(), None);

    let mut fresh = create_or_load_map_env("rt_eager", &mut file);
    assert_eq!(fresh.get("alpha", &file).unwrap(), Some("1".to_string()));
    assert_eq!(fresh.get("beta", &file).unwrap(), Some("2".to_string()));
    assert_eq!(fresh.get("gamma", &file).unwrap(), Some("3".to_string()));
}

#[test]
fn round_trip_unique_keys_late_save() {
    let mut file: Option<String> = None;
    let mut env = create_or_load_late_save_map_env("rt_late", &mut file).unwrap();
    assert_eq!(env.put("alpha", "1"), None);
    assert_eq!(env.put("beta", "2"), None);
    env.save(&mut file);

    let fresh = create_or_load_late_save_map_env("rt_late", &mut file).unwrap();
    assert_eq!(fresh.get("alpha"), Some("1".to_string()));
    assert_eq!(fresh.get("beta"), Some("2".to_string()));
}

#[test]
fn delete_removes_late_save() {
    let mut file: Option<String> = None;
    let mut env = create_or_load_late_save_map_env("del_late", &mut file).unwrap();
    env.put("k", "v");
    env.delete("k");
    assert_eq!(env.get("k"), None);
}

#[test]
fn idempotent_initialize() {
    let mut file: Option<String> = None;
    let _ = create_or_load_map_env("init_twice", &mut file);
    let after_first = file.clone();
    assert!(after_first.is_some());
    let _ = create_or_load_map_env("init_twice", &mut file);
    assert_eq!(file, after_first);

    let _ = create_or_load_late_save_map_env("init_twice", &mut file).unwrap();
    assert_eq!(file, after_first);
}

#[test]
fn eager_reload_visibility() {
    let mut file: Option<String> = None;
    let mut a = create_or_load_map_env("shared", &mut file);
    let mut b = create_or_load_map_env("shared", &mut file);
    a.put("k", "v", &mut file).unwrap();
    assert_eq!(b.get("k", &file).unwrap(), Some("v".to_string()));
}

#[test]
fn late_save_isolation() {
    let mut file: Option<String> = None;
    let mut env = create_or_load_late_save_map_env("isolated", &mut file).unwrap();
    let before = file.clone();
    assert_eq!(env.put("k", "v"), None);
    assert_eq!(file, before);

    let fresh = create_or_load_late_save_map_env("isolated", &mut file).unwrap();
    assert_eq!(fresh.get("k"), None);
    assert_eq!(file, before);
}

#[test]
fn decode_failure_on_corruption() {
    let mut file: Option<String> = Some("not json".to_string());
    let mut env = create_or_load_map_env("corrupt", &mut file);
    assert_eq!(file.as_deref(), Some("not json"));
    assert_eq!(env.get("a", &file), Err(StoreError::DecodeError));
    assert_eq!(env.put("a", "b", &mut file), Err(StoreError::DecodeError));
    assert_eq!(file.as_deref(), Some("not json"));

    match create_or_load_late_save_map_env("corrupt", &mut file) {
        Err(StoreError::DecodeError) => {},
        Err(e) => panic!("expected a decode failure, got {:?}", e),
        Ok(_) => panic!("expected a decode failure, got a handle"),
    }
}

#[test]
fn concrete_scenario() {
    let mut file: Option<String> = None;
    let mut env = create_or_load_map_env("t1", &mut file);
    assert_eq!(env.put("a", "1", &mut file).unwrap(), None);
    assert_eq!(env.put("a", "2", &mut file).unwrap(), Some("1".to_string()));
    assert_eq!(env.get("a", &file).unwrap(), Some("2".to_string()));
    env.delete("a", &mut file);
    assert_eq!(env.get("a", &file).unwrap(), None);
}

#[test]
fn persisted_file_format() {
    let mut file: Option<String> = None;
    let mut env = create_or_load_map_env("fmt", &mut file);
    assert_eq!(file.as_deref(), Some("{\"inner\":{}}"));
    env.put("somekey", "somevalue", &mut file).unwrap();
    assert_eq!(
        file.as_deref(),
        Some("{\"inner\":{\"somekey\":\"somevalue\"}}"),
    );
}

#[test]
fn decode_accepts_equivalent_json() {
    let file: Option<String> =
        Some("{ \"inner\" : { \"k\" : \"v\" } }".to_string());
    let mut env = create_or_load_map_env("spaced", &mut file.clone());
    assert_eq!(env.get("k", &file).unwrap(), Some("v".to_string()));
}

#[test]
fn decode_rejects_other_shapes() {
    let mut env = create_or_load_map_env("shapes", &mut Some("{\"inner\":{}}".to_string()));
    let extra_field: Option<String> = Some("{\"inner\":{},\"extra\":{}}".to_string());
    assert_eq!(env.get("k", &extra_field), Err(StoreError::DecodeError));
    let wrong_field: Option<String> = Some("{\"outer\":{}}".to_string());
    assert_eq!(env.get("k", &wrong_field), Err(StoreError::DecodeError));
    let not_object: Option<String> = Some("{\"inner\":5}".to_string());
    assert_eq!(env.get("k", &not_object), Err(StoreError::DecodeError));
    let not_strings: Option<String> = Some("{\"inner\":{\"k\":5}}".to_string());
    assert_eq!(env.get("k", &not_strings), Err(StoreError::DecodeError));
}

#[test]
fn missing_file_is_an_io_error() {
    let mut file: Option<String> = None;
    let mut env = create_or_load_map_env("vanishing", &mut file);
    let gone: Option<String> = None;
    assert_eq!(env.get("k", &gone), Err(StoreError::IoError));
    assert_eq!(env.put("k", "v", &mut None), Err(StoreError::IoError));
}

#[test]
fn persistence_env_primitives() {
    let env = env_default_at("prim");
    assert_eq!(env.name().as_str(), "prim");

    let mut file: Option<String> = None;
    assert_eq!(env.load_from_local(&file), Err(StoreError::IoError));

    env.init_env(&mut file, "first");
    assert_eq!(file.as_deref(), Some("first"));
    env.init_env(&mut file, "second");
    assert_eq!(file.as_deref(), Some("first"));

    env.save_to_local(&mut file, "third");
    assert_eq!(file.as_deref(), Some("third"));
    assert_eq!(env.load_from_local(&file), Ok("third".to_string()));
}

#[test]
fn eager_delete_is_memory_only_before_flush() {
    let mut file: Option<String> = None;
    let mut a = create_or_load_map_env("resurrect", &mut file);
    let mut b = create_or_load_map_env("resurrect", &mut file);
    a.put("k", "v", &mut file).unwrap();
    b.get("k", &file).unwrap();
    b.delete("k", &mut file);
    assert_eq!(b.get("k", &file).unwrap(), None);
    assert_eq!(file.as_deref(), Some("{\"inner\":{}}"));
}
