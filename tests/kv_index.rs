use asspp::kv_index::{account_index_key, add_to_index, remove_from_index, task_key};

#[test]
fn kv_keys() {
    assert_eq!(task_key("t1"), "task:t1");
    assert_eq!(account_index_key("abcdefgh"), "account_tasks:abcdefgh");
}

#[test]
fn kv_account_index() {
    let mut ids = vec!["a".to_string()];
    assert!(add_to_index(&mut ids, "b"));
    assert!(!add_to_index(&mut ids, "a"));
    assert_eq!(ids, vec!["a".to_string(), "b".to_string()]);
    assert_eq!(remove_from_index(&ids, "a"), vec!["b".to_string()]);
    assert_eq!(remove_from_index(&ids, "zz"), ids);
}
