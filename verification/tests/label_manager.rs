use soapdav::label_manager::Manager;
use soapdav::label_manager::ManagerError;
use soapdav::label_manager::MemManager;

#[test]
fn test_mem_manager() {
    let mut manager = MemManager::new();
    let author_key = String::from("author");
    let rate_key = String::from("rate");
    // 创建标签类型
    assert!(
        manager.define_label(&author_key).is_ok(),
        "define a new label type"
    );
    assert!(
        manager.define_label(&author_key).is_ok(),
        "redefine a new label type"
    );
    assert_eq!(
        manager.list_label().unwrap().len(),
        1,
        "only contains one element"
    );
    assert!(
        manager.define_label(&rate_key).is_ok(),
        "define another new label type"
    );
    assert_eq!(
        manager.list_label().unwrap().len(),
        2,
        "ontains two label type now"
    );
    // 定义标签值
    assert!(manager
        .define_label_value(
            &author_key,
            &vec![String::from("alice"), String::from("bob")]
        )
        .is_ok());
    assert!(manager
        .define_label_value(&rate_key, &vec![String::from("1")])
        .is_ok());
    assert_eq!(
        manager.list_label_value(&author_key).unwrap().len(),
        2,
        "两个标签值"
    );
    assert_eq!(
        manager.list_label_value(&rate_key).unwrap().len(),
        1,
        "一个标签值"
    );
    // 删除标签值
    assert!(
        manager
            .remove_label_value(&rate_key, &vec![String::from("2")])
            .is_ok(),
        "删除不存在的标签值"
    );
    assert_eq!(
        manager.list_label_value(&rate_key).unwrap().len(),
        1,
        "一个标签值"
    );
    assert!(
        manager
            .remove_label_value(&rate_key, &vec![String::from("1")])
            .is_ok(),
        "删除存在的标签值"
    );
    assert!(
        manager.list_label_value(&rate_key).unwrap().is_empty(),
        "没有标签值"
    );
    // 删除标签
    assert!(
        manager.remove_label(&author_key).is_err(),
        "不能删除不为空的标签"
    );
    assert!(manager.remove_label(&rate_key).is_ok(), "可以删除空标签");
    assert!(manager.remove_label(&rate_key).is_ok(), "可以重复删除空标签");
    // 查询不存在的标签
    assert!(
        manager.list_label_value(&rate_key).is_err(),
        "标签不存在的话会报错"
    );
}

#[test]
fn label_types_and_values_keep_their_order_and_occur_once() {
    let mut manager = MemManager::new();
    let author = String::from("author");
    manager.define_label(&String::from("rate")).unwrap();
    manager
        .define_label_value(&author, &vec![String::from("bob"), String::from("alice")])
        .unwrap();
    manager
        .define_label_value(&author, &vec![String::from("alice"), String::from("carol")])
        .unwrap();
    assert_eq!(manager.list_label().unwrap(), vec!["rate", "author"]);
    assert_eq!(manager.list_label_value(&author).unwrap(), vec!["bob", "alice", "carol"]);
    manager
        .remove_label_value(&author, &vec![String::from("alice"), String::from("zed")])
        .unwrap();
    assert_eq!(manager.list_label_value(&author).unwrap(), vec!["bob", "carol"]);
    manager.remove_label_value(&String::from("nothing"), &vec![String::from("x")]).unwrap();
    assert_eq!(manager.list_label().unwrap(), vec!["rate", "author"]);
}

#[test]
fn the_errors_of_the_label_manager() {
    let mut manager = MemManager::new();
    let author = String::from("author");
    manager.define_label_value(&author, &vec![String::from("bob")]).unwrap();
    match manager.remove_label(&author) {
        Err(ManagerError::NotEmpty(key)) => assert_eq!(key, "author"),
        other => panic!("unexpected: {:?}", other),
    }
    assert_eq!(manager.list_label().unwrap(), vec!["author"]);
    assert!(matches!(
        manager.list_label_value(&String::from("rate")),
        Err(ManagerError::NotFound)
    ));
    assert_eq!(
        ManagerError::NotEmpty(String::from("author")).message(),
        "NotEmpty(\"author\"): author"
    );
    assert_eq!(
        ManagerError::NotEmpty(String::from("a\"b\n")).message(),
        "NotEmpty(\"a\\\"b\\n\"): a\"b\n"
    );
    assert_eq!(ManagerError::NotFound.message(), "NotFound:");
    assert_eq!(ManagerError::Conflict.message(), "Conflict:");
}
