use polycore::capability::{notify, notify_1, returns_summarizable, Describe, Post, Summary};
use polycore::objects::{ObjectList, V4, V6};
use polycore::values::{build_user, File, FileState};

fn post() -> Post {
    Post {
        title: "title".to_string(),
        author: "author".to_string(),
        content: "content".to_string(),
    }
}

#[test]
fn required_operation_uses_the_implementers_body() {
    assert_eq!(post().summarize(), "文章:title, 作者:author");
}

#[test]
fn overridden_default_uses_the_override() {
    assert_eq!(post().summarize_author(), "作者:author");
}

#[test]
fn inherited_default_uses_the_default_body() {
    let user = build_user("Tik".to_string(), "abc@gmail.com".to_string());
    assert_eq!(user.summarize(), "User: Tik");
    assert_eq!(user.summarize_author(), "Read more...");
}

#[test]
fn parameter_position_and_bound_form_resolve_identically() {
    let p = post();
    assert_eq!(notify(&p), "Breaking news! 文章:title, 作者:author");
    assert_eq!(notify(&p), notify_1(&p));
}

#[test]
fn opaque_return_yields_the_committed_type() {
    let s = returns_summarizable();
    assert_eq!(s.title, "title");
    assert_eq!(s.summarize(), "文章:title, 作者:author");
}

#[test]
fn capability_objects_iterate_in_insertion_order() {
    let mut list = ObjectList::new();
    list.append_object(V4("127.0.0.1".to_string()));
    list.append_object(V6("::1".to_string()));
    list.append_object(V4("10.0.0.7".to_string()));
    assert_eq!(list.len(), 3);
    let texts = list.describe_all();
    assert_eq!(texts, vec!["ipv4: 127.0.0.1", "ipv6: ::1", "ipv4: 10.0.0.7"]);
}

#[test]
fn closed_variants_render_in_order() {
    let list = vec![
        polycore::objects::IpAddr::V4("127.0.0.1".to_string()),
        polycore::objects::IpAddr::V6("::1".to_string()),
    ];
    let texts = polycore::objects::describe_variants(&list);
    assert_eq!(texts, vec!["ipv4: 127.0.0.1", "ipv6: ::1"]);
}

#[test]
fn describe_renders_each_concrete_shape() {
    assert_eq!(V4("1.2.3.4".to_string()).describe(), "ipv4: 1.2.3.4");
    assert_eq!(V6("::1".to_string()).describe(), "ipv6: ::1");
}

#[test]
fn file_renders_name_and_state() {
    let f = File::new("f6.txt");
    assert_eq!(f.state, FileState::Closed);
    assert!(f.data.is_empty());
    assert_eq!(f.describe(), "<f6.txt (Close)>");
    assert_eq!(FileState::Open.describe(), "OPEN");
}
