use hangman::client::{response_type_for, Method, ResponseType};

#[test]
fn methods_have_their_wire_names() {
    assert_eq!(Method::Post.name(), "POST");
    assert_eq!(Method::Get.name(), "GET");
}

#[test]
fn responses_are_text_unless_something_else_is_asked_for() {
    assert_eq!(response_type_for(None), ResponseType::Text);
    assert_eq!(response_type_for(Some("text")), ResponseType::Text);
    assert_eq!(response_type_for(Some("json")), ResponseType::Json);
    assert_eq!(response_type_for(Some("xml")), ResponseType::Json);
    assert_eq!(response_type_for(Some("")), ResponseType::Json);
    assert_eq!(response_type_for(Some("Text")), ResponseType::Json);
}
