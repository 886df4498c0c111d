use cubic::models::{Target, TargetPath};

#[test]
fn test_path() {
    let path = TargetPath::from_str("/home/cubic").unwrap();
    assert_eq!(path.to_string().as_str(), "/home/cubic");
}

#[test]
fn test_instance_path() {
    let path = TargetPath::from_str("mymachine:/home/cubic").unwrap();
    assert_eq!(path.to_string().as_str(), "mymachine:/home/cubic");
}

#[test]
fn test_user_instance_path() {
    let path = TargetPath::from_str("cubic@mymachine:/home/cubic").unwrap();
    assert_eq!(path.to_string().as_str(), "cubic@mymachine:/home/cubic");
}

#[test]
fn test_reject_too_many_colons() {
    assert!(TargetPath::from_str("a:b:c").is_err());
}

#[test]
fn test_get_target_of_instance_path() {
    let path = TargetPath::from_str("mymachine:/home/cubic").unwrap();
    assert_eq!(path.get_target().unwrap().get_instance().as_str(), "mymachine");
}

#[test]
fn test_get_target_of_local_path() {
    let path = TargetPath::from_str("/home/cubic").unwrap();
    assert!(path.get_target().is_none());
}

#[test]
fn target_path_splits_user_instance_and_path() {
    let path = TargetPath::from_str("tux@box:~/notes").unwrap();
    let target = path.get_target().unwrap();
    assert_eq!(target.get_user().unwrap().as_str(), "tux");
    assert_eq!(target.get_instance().as_str(), "box");
    assert_eq!(path.get_path().as_str(), "~/notes");
    assert_eq!(target.to_string(), "tux@box");
}

#[test]
fn target_path_rejects_a_target_with_two_users() {
    let error = TargetPath::from_str("a@b@c:/x").err().unwrap();
    assert!(error.starts_with("Target must have the format"));
    let error = TargetPath::from_str("a:b:c").err().unwrap();
    assert!(error.starts_with("Target path must have the format"));
    assert!(Target::from_str("a@b@c").is_err());
}

#[test]
fn target_path_keeps_an_empty_path() {
    let path = TargetPath::from_str("box:").unwrap();
    assert_eq!(path.get_path().as_str(), "");
    assert_eq!(path.to_string(), "box:");
}
