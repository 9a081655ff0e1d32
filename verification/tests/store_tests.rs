use easy_safe_pack::{
    create_or_load_late_save_map_env, create_or_load_map_env, LateSaveMapEnv, MapEnv,
};

#[test]
fn create_env_and_check_name() {
    let mut file: Option<String> = None;
    let map_env: MapEnv = create_or_load_map_env("name1", &mut file);
    assert_eq!(map_env.get_name().as_str(), "name1");
}

#[test]
fn create_env_put_and_get() {
    let mut file: Option<String> = None;
    let mut map_env: MapEnv = create_or_load_map_env("name2", &mut file);
    map_env.put("somekey", "somevalue", &mut file).unwrap();
    let value = map_env.get("somekey", &file).unwrap().unwrap();
    assert_eq!(value, "somevalue");
}

#[test]
fn create_env_put_and_delete() {
    let mut file: Option<String> = None;
    let mut map_env: MapEnv = create_or_load_map_env("name4", &mut file);
    map_env.put("somekey", "somevalue", &mut file).unwrap();
    map_env.delete("somekey", &mut file);
    let value = map_env.get("somekey", &file).unwrap();
    assert_eq!(value, None);
}

#[test]
fn create_env_and_check_name_with_late_save() {
    let mut file: Option<String> = None;
    let map_env: LateSaveMapEnv = create_or_load_late_save_map_env("name6", &mut file).unwrap();
    assert_eq!(map_env.get_name().as_str(), "name6");
}

#[test]
fn create_env_put_and_get_with_late_save() {
    let mut file: Option<String> = None;
    let mut map_env: LateSaveMapEnv = create_or_load_late_save_map_env("name7", &mut file).unwrap();
    map_env.put("somekey", "somevalue");
    map_env.save(&mut file);

    let new_map_env_instance: LateSaveMapEnv =
        create_or_load_late_save_map_env("name7", &mut file).unwrap();

    let value = new_map_env_instance.get("somekey").unwrap();
    assert_eq!(value, "somevalue");
}

#[test]
fn create_env_put_and_get_with_late_save_without_saving_to_disk() {
    let mut file: Option<String> = None;
    let mut map_env: LateSaveMapEnv = create_or_load_late_save_map_env("name8", &mut file).unwrap();
    map_env.put("somekey", "somevalue");

    let new_map_env_instance: LateSaveMapEnv =
        create_or_load_late_save_map_env("name8", &mut file).unwrap();

    let value = new_map_env_instance.get("somekey");
    assert_eq!(value, None);
}
