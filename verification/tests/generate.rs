use tbd::blog::{ContentField, Post, Posts};
use tbd::compile::{Compile, GenericSqlGateway};
use tbd::query::select;

#[test]
fn simple_select() {
    let query = select::<Post>().from::<Posts>();
    let result = GenericSqlGateway::compile(&query);
    assert_eq!("SELECT * FROM posts", result);
}

#[test]
fn subfield_select() {
    let query = select::<(ContentField,)>().from::<Posts>();
    let result = GenericSqlGateway::compile(&query);
    assert_eq!("SELECT content FROM posts", result);
}

#[test]
fn simple_select_limit() {
    let query = select::<Post>().from::<Posts>().limit(1);
    let result = GenericSqlGateway::compile(&query);
    assert_eq!("SELECT * FROM posts LIMIT 1", result);
}

#[test]
fn subfield_select_limit() {
    let query = select::<(ContentField,)>().from::<Posts>().limit(1);
    let result = GenericSqlGateway::compile(&query);
    assert_eq!("SELECT content FROM posts LIMIT 1", result);
}

#[test]
fn simple_select_find() {
    let query = select::<Post>().from::<Posts>().limit(1);
    let result = GenericSqlGateway::compile(&query);
    assert_eq!("SELECT * FROM posts LIMIT 1", result);
}

#[test]
fn subfield_select_find() {
    let query = select::<(ContentField,)>().from::<Posts>().find(1);
    let result = GenericSqlGateway::compile(&query);
    assert_eq!("SELECT content FROM posts WHERE id = 1 LIMIT 1", result);
}
