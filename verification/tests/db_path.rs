use rubic::db_path::{db_dir_of, default_db_dir, default_db_file};

#[test]
fn the_directory_runs_through_the_last_slash() {
    assert_eq!(db_dir_of("/var/lib/rubic/rubic.sqlite"), "/var/lib/rubic/");
    assert_eq!(db_dir_of("data//db"), "data//");
    assert_eq!(db_dir_of("dir/"), "dir/");
    assert_eq!(db_dir_of("rubic.sqlite"), "");
    assert_eq!(db_dir_of(""), "");
}

#[test]
fn the_default_lives_under_the_home_directory() {
    let dir = default_db_dir("/home/alice");
    assert_eq!(dir, "/home/alice/.rubic/");
    assert_eq!(default_db_file(&dir), "/home/alice/.rubic/rubic.sqlite");
}
