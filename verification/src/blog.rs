//! The schema of a blog kept in SQL: posts and comments, their fields, the
//! relations that store them and the columns a stored one is written as.

use crate::fieldset::{Complete, Field, FieldSet, ModelMappedFieldSet, PrimaryField};
use crate::memory::{comment_post, comment_text, post_text};
use crate::relation::{column_views, Relation, RelationField, RelationFieldSet, RelationName};
use crate::text::str_views;
use crate::text::{decimal, i64_decimal};
use crate::wrapper::{Keyed, ModelLifeCycle, Wrapper};
use crate::key::{le_i64, Key};
use crate::sqlite::{field_names, field_values, insert_text, values_keyword};
use crate::text::join;
use vstd::prelude::*;
use vstd::string::*;

verus! {

/// A post of the blog.
#[derive(Debug)]
pub struct Post {
    pub content: String,
}

/// A comment on a post of the blog.
#[derive(Debug)]
pub struct Comment {
    pub content: String,
    pub post_id: i64,
}

/// A post together with its key once it is stored.
#[derive(Debug)]
pub struct KeyedPost(pub Keyed<i64, Post>);

/// The relation of posts.
pub struct Posts;

/// The relation of comments.
pub struct Comments;

/// The primary key field of posts.
pub struct PostKeyField;

/// The text of a post.
pub struct ContentField;

/// The primary key field of comments.
pub struct CommentKeyField;

/// The text of a comment.
pub struct CommentContentField;

/// The post a comment belongs to.
pub struct PostId;

impl Field for PostKeyField {
    type Type = i64;
}

impl PrimaryField for PostKeyField {}

impl RelationField for PostKeyField {
    type Relation = Posts;

    open spec fn column() -> Seq<char> {
        "id"@
    }

    fn name() -> (n: &'static str) {
        "id"
    }
}

impl Field for ContentField {
    type Type = String;
}

impl RelationField for ContentField {
    type Relation = Posts;

    open spec fn column() -> Seq<char> {
        "content"@
    }

    fn name() -> (n: &'static str) {
        "content"
    }
}

impl Field for CommentKeyField {
    type Type = i64;
}

impl PrimaryField for CommentKeyField {}

impl RelationField for CommentKeyField {
    type Relation = Comments;

    open spec fn column() -> Seq<char> {
        "id"@
    }

    fn name() -> (n: &'static str) {
        "id"
    }
}

impl Field for CommentContentField {
    type Type = String;
}

impl RelationField for CommentContentField {
    type Relation = Comments;

    open spec fn column() -> Seq<char> {
        "content"@
    }

    fn name() -> (n: &'static str) {
        "content"
    }
}

impl Field for PostId {
    type Type = i64;
}

impl RelationField for PostId {
    type Relation = Comments;

    open spec fn column() -> Seq<char> {
        "post_id"@
    }

    fn name() -> (n: &'static str) {
        "post_id"
    }
}

impl FieldSet for Post {
    type Marker = Complete;
}

impl ModelMappedFieldSet for Post {
    type Model = Post;
}

impl RelationFieldSet for Post {
    type Relation = Posts;

    open spec fn columns() -> Seq<Seq<char>> {
        seq!["id"@, "content"@]
    }

    fn names() -> (names: Vec<&'static str>) {
        let mut names = Vec::new();
        names.push("id");
        names.push("content");
        assert(str_views(names@) =~= seq!["id"@, "content"@]);
        names
    }
}

impl FieldSet for Comment {
    type Marker = Complete;
}

impl ModelMappedFieldSet for Comment {
    type Model = Comment;
}

impl RelationFieldSet for Comment {
    type Relation = Comments;

    open spec fn columns() -> Seq<Seq<char>> {
        seq!["id"@, "content"@, "post_id"@]
    }

    fn names() -> (names: Vec<&'static str>) {
        let mut names = Vec::new();
        names.push("id");
        names.push("content");
        names.push("post_id");
        assert(str_views(names@) =~= seq!["id"@, "content"@, "post_id"@]);
        names
    }
}

impl Wrapper for Post {
    type Wrapping = Post;
    type Returning = Post;

    open spec fn wrapped(m: Post) -> Post {
        m
    }

    fn wrap(m: Post) -> (p: Post) {
        m
    }
}

impl ModelLifeCycle for Post {
    type PrimaryKey = i64;

    /// A post does not keep its key: it stays as it is.
    open spec fn created_with(before: Post, after: Post, primary_key: Seq<u8>) -> bool {
        after == before
    }

    /// The bytes are not read.
    open spec fn reads_key() -> bool {
        false
    }

    /// A post does not keep its key.
    fn created(&mut self, primary_key: &[u8])
        ensures
            *final(self) == *old(self),
    {
    }
}

impl Wrapper for Comment {
    type Wrapping = Comment;
    type Returning = Comment;

    open spec fn wrapped(m: Comment) -> Comment {
        m
    }

    fn wrap(m: Comment) -> (c: Comment) {
        m
    }
}

impl ModelLifeCycle for Comment {
    type PrimaryKey = i64;

    /// A comment does not keep its key: it stays as it is.
    open spec fn created_with(before: Comment, after: Comment, primary_key: Seq<u8>) -> bool {
        after == before
    }

    /// The bytes are not read.
    open spec fn reads_key() -> bool {
        false
    }

    /// A comment does not keep its key.
    fn created(&mut self, primary_key: &[u8])
        ensures
            *final(self) == *old(self),
    {
    }
}

impl Wrapper for KeyedPost {
    type Wrapping = Post;
    type Returning = KeyedPost;

    /// A post that has no key yet.
    open spec fn wrapped(m: Post) -> KeyedPost {
        KeyedPost(<Keyed<i64, Post> as Wrapper>::wrapped(m))
    }

    /// A post that has no key yet.
    fn wrap(m: Post) -> (k: KeyedPost)
        ensures
            k.0.key() is None,
            k.0.model() == m,
    {
        KeyedPost(<Keyed<i64, Post> as Wrapper>::wrap(m))
    }
}

impl ModelLifeCycle for KeyedPost {
    type PrimaryKey = i64;

    /// The post keeps its key; the post itself stays as it is.
    open spec fn created_with(before: KeyedPost, after: KeyedPost, primary_key: Seq<u8>) -> bool {
        <Keyed<i64, Post> as ModelLifeCycle>::created_with(before.0, after.0, primary_key)
    }

    /// The key is read from the bytes.
    open spec fn reads_key() -> bool {
        true
    }

    /// The post keeps its key.
    fn created(&mut self, primary_key: &[u8])
        ensures
            final(self).0.key() == Some(<i64 as Key>::key_of(primary_key@)),
            final(self).0.model() == old(self).0.model(),
    {
        self.0.created(primary_key)
    }
}

/// A text as an SQL string literal: in double quotes.
pub open spec fn quoted(s: Seq<char>) -> Seq<char> {
    seq!['"'] + s + seq!['"']
}

/// The `id` column, if the model has a key.
pub open spec fn key_column(key: Option<i64>) -> Seq<(Seq<char>, Seq<char>)> {
    match key {
        Some(id) => seq![("id"@, decimal(id as int))],
        None => Seq::empty(),
    }
}

/// The columns of a stored post: its key if it has one, then its text.
pub open spec fn post_columns(key: Option<i64>, content: Seq<char>) -> Seq<(Seq<char>, Seq<char>)> {
    key_column(key).push(("content"@, quoted(content)))
}

/// The columns of a stored comment: its key if it has one, its text, and
/// its post.
pub open spec fn comment_columns(key: Option<i64>, content: Seq<char>, post_id: i64) -> Seq<
    (Seq<char>, Seq<char>),
> {
    key_column(key).push(("content"@, quoted(content))).push(("post_id"@, decimal(post_id as int)))
}

/// The column of the key, if there is a key.
fn hydrate_key(key: Option<i64>) -> (h: Vec<(String, String)>)
    ensures
        column_views(h@) == key_column(key),
{
    let mut h: Vec<(String, String)> = Vec::new();
    match key {
        Some(id) => {
            h.push((String::from_str("id"), i64_decimal(id)));
        },
        None => {},
    }
    assert(column_views(h@) =~= key_column(key));
    h
}

/// `s` in double quotes.
fn quote(s: &String) -> (q: String)
    ensures
        q@ == quoted(s@),
{
    let mut q = String::from_str("\"");
    q.append(s.as_str());
    q.append("\"");
    proof {
        reveal_strlit("\"");
    }
    assert(q@ =~= quoted(s@));
    q
}

impl Relation for Posts {
    type PrimaryKey = i64;
    type PrimaryField = PostKeyField;
    type Model = Post;
    type Fields = Post;
    type Wrapper = KeyedPost;

    open spec fn columns_of(model: KeyedPost) -> Seq<(Seq<char>, Seq<char>)> {
        post_columns(model.0.key(), model.0.model().content@)
    }

    open spec fn table() -> Seq<char> {
        "posts"@
    }

    fn hydrate(model: &KeyedPost) -> (h: Vec<(String, String)>) {
        let model = &model.0;
        let mut h = hydrate_key(*model.primary_key());
        let content = quote(&model.deref().content);
        let ghost before = h@;
        h.push((String::from_str("content"), content));
        assert(column_views(h@) =~= column_views(before).push(("content"@, content@)));
        h
    }

    fn name() -> (n: &'static str) {
        "posts"
    }
}

impl Relation for Comments {
    type PrimaryKey = i64;
    type PrimaryField = CommentKeyField;
    type Model = Comment;
    type Fields = Comment;
    type Wrapper = Keyed<i64, Comment>;

    open spec fn columns_of(model: Keyed<i64, Comment>) -> Seq<(Seq<char>, Seq<char>)> {
        comment_columns(model.key(), model.model().content@, model.model().post_id)
    }

    open spec fn table() -> Seq<char> {
        "comments"@
    }

    fn hydrate(model: &Keyed<i64, Comment>) -> (h: Vec<(String, String)>) {
        let mut h = hydrate_key(*model.primary_key());
        let content = quote(&model.deref().content);
        let ghost before = h@;
        h.push((String::from_str("content"), content));
        let post_id = i64_decimal(model.deref().post_id);
        let ghost middle = h@;
        h.push((String::from_str("post_id"), post_id));
        assert(column_views(middle) =~= column_views(before).push(("content"@, quoted(model.model().content@))));
        assert(column_views(h@) =~= column_views(middle).push(
            ("post_id"@, decimal(model.model().post_id as int)),
        ));
        h
    }

    fn name() -> (n: &'static str) {
        "comments"
    }
}

impl RelationName for Post {
    fn relation_name() -> (n: &'static str)
        ensures
            n@ == "posts"@,
    {
        "posts"
    }
}

impl RelationName for Comment {
    fn relation_name() -> (n: &'static str)
        ensures
            n@ == "comments"@,
    {
        "comments"
    }
}

/// The sample posts: "Post number 1" to "Post number 3".
pub fn sample_posts() -> (posts: Vec<Post>)
    ensures
        posts@.len() == 3,
        forall|i: int| 0 <= i < 3 ==> #[trigger] posts@[i].content@ == post_text(i + 1),
{
    let mut posts: Vec<Post> = Vec::new();
    let mut id: i64 = 1;
    while id <= 3
        invariant
            1 <= id <= 4,
            posts@.len() == id - 1,
            forall|i: int| 0 <= i < id - 1 ==> #[trigger] posts@[i].content@ == post_text(i + 1),
        decreases 4 - id,
    {
        let mut content = String::from_str("Post number ");
        let n = i64_decimal(id);
        content.append(n.as_str());
        posts.push(Post { content: content });
        id = id + 1;
    }
    posts
}

/// The sample comments: comment `n`, for `n` from 1 to 9, on post
/// `n % 3 + 1`.
pub fn sample_comments() -> (comments: Vec<Comment>)
    ensures
        comments@.len() == 9,
        forall|i: int|
            0 <= i < 9 ==> {
                &&& #[trigger] comments@[i].post_id == comment_post(i + 1)
                &&& comments@[i].content@ == comment_text(i + 1, comment_post(i + 1))
            },
{
    let mut comments: Vec<Comment> = Vec::new();
    let mut id: i64 = 1;
    while id <= 9
        invariant
            1 <= id <= 10,
            comments@.len() == id - 1,
            forall|i: int|
                0 <= i < id - 1 ==> {
                    &&& #[trigger] comments@[i].post_id == comment_post(i + 1)
                    &&& comments@[i].content@ == comment_text(i + 1, comment_post(i + 1))
                },
        decreases 10 - id,
    {
        let post_id = id % 3;
        let mut content = String::from_str("Comment number ");
        let n = i64_decimal(id);
        content.append(n.as_str());
        content.append(" on post ");
        let p = i64_decimal(post_id + 1);
        content.append(p.as_str());
        comments.push(Comment { content: content, post_id: post_id + 1 });
        id = id + 1;
    }
    comments
}

/// The statement that stores a post names its key column first when it has a
/// key, then its text; the values follow in the same order.
pub proof fn law_post_insert_statement(h: Seq<(String, String)>, key: Option<i64>, content: Seq<char>)
    requires
        column_views(h) == post_columns(key, content),
    ensures
        insert_text("posts"@, h) == "INSERT INTO "@ + "posts"@ + " ("@ + (match key {
            Some(_) => "id"@ + ", "@ + "content"@,
            None => "content"@,
        }) + values_keyword() + (match key {
            Some(id) => decimal(id as int) + ", "@ + quoted(content),
            None => quoted(content),
        }) + ")"@,
{
    let names = field_names(h);
    let values = field_values(h);
    assert(column_views(h).len() == h.len());
    assert(forall|i: int| 0 <= i < h.len() ==> #[trigger] names[i] == column_views(h)[i].0);
    assert(forall|i: int| 0 <= i < h.len() ==> #[trigger] values[i] == column_views(h)[i].1);
    match key {
        Some(id) => {
            assert(h.len() == 2);
            assert(column_views(h)[0] == ("id"@, decimal(id as int)));
            assert(column_views(h)[1] == ("content"@, quoted(content)));
            assert(names =~= seq!["id"@, "content"@]);
            assert(values =~= seq![decimal(id as int), quoted(content)]);
            assert(names.drop_last() =~= seq!["id"@]);
            assert(values.drop_last() =~= seq![decimal(id as int)]);
            assert(join(names, ", "@) == join(names.drop_last(), ", "@) + ", "@ + names.last());
            assert(join(values, ", "@) == join(values.drop_last(), ", "@) + ", "@ + values.last());
            assert(join(names.drop_last(), ", "@) == "id"@);
            assert(join(values.drop_last(), ", "@) == decimal(id as int));
        },
        None => {
            assert(h.len() == 1);
            assert(column_views(h)[0] == ("content"@, quoted(content)));
            assert(names =~= seq!["content"@]);
            assert(values =~= seq![quoted(content)]);
        },
    }
}

/// A stored post is written as its key column first, when it has a key, then
/// its text in double quotes.
pub proof fn law_post_columns(m: KeyedPost)
    ensures
        Posts::columns_of(m) == match m.0.key() {
            Some(k) => seq![("id"@, decimal(k as int)), ("content"@, quoted(m.0.model().content@))],
            None => seq![("content"@, quoted(m.0.model().content@))],
        },
{
    let c = m.0.model().content@;
    match m.0.key() {
        Some(k) => {
            assert(Posts::columns_of(m) =~= seq![("id"@, decimal(k as int)), ("content"@, quoted(c))]);
        },
        None => {
            assert(Posts::columns_of(m) =~= seq![("content"@, quoted(c))]);
        },
    }
}

/// A stored comment is written as its key column first, when it has a key,
/// then its text in double quotes, then the post it belongs to.
pub proof fn law_comment_columns(m: Keyed<i64, Comment>)
    ensures
        Comments::columns_of(m) == match m.key() {
            Some(k) => seq![
                ("id"@, decimal(k as int)),
                ("content"@, quoted(m.model().content@)),
                ("post_id"@, decimal(m.model().post_id as int)),
            ],
            None => seq![
                ("content"@, quoted(m.model().content@)),
                ("post_id"@, decimal(m.model().post_id as int)),
            ],
        },
{
    let c = m.model().content@;
    let p = m.model().post_id;
    match m.key() {
        Some(k) => {
            assert(Comments::columns_of(m) =~= seq![
                ("id"@, decimal(k as int)),
                ("content"@, quoted(c)),
                ("post_id"@, decimal(p as int)),
            ]);
        },
        None => {
            assert(Comments::columns_of(m) =~= seq![
                ("content"@, quoted(c)),
                ("post_id"@, decimal(p as int)),
            ]);
        },
    }
}

/// The statement that stores a comment, from the columns its relation writes
/// for it: the key column first when it has a key, then its text, then its
/// post; the values follow in the same order.
pub proof fn law_comment_insert_statement(h: Seq<(String, String)>, m: Keyed<i64, Comment>)
    requires
        column_views(h) == Comments::columns_of(m),
    ensures
        insert_text("comments"@, h) == "INSERT INTO "@ + "comments"@ + " ("@ + (match m.key() {
            Some(_) => "id"@ + ", "@ + "content"@ + ", "@ + "post_id"@,
            None => "content"@ + ", "@ + "post_id"@,
        }) + values_keyword() + (match m.key() {
            Some(k) => decimal(k as int) + ", "@ + quoted(m.model().content@) + ", "@ + decimal(
                m.model().post_id as int,
            ),
            None => quoted(m.model().content@) + ", "@ + decimal(m.model().post_id as int),
        }) + ")"@,
{
    law_comment_columns(m);
    let c = quoted(m.model().content@);
    let p = decimal(m.model().post_id as int);
    let names = field_names(h);
    let values = field_values(h);
    assert(column_views(h).len() == h.len());
    assert(forall|i: int| 0 <= i < h.len() ==> #[trigger] names[i] == column_views(h)[i].0);
    assert(forall|i: int| 0 <= i < h.len() ==> #[trigger] values[i] == column_views(h)[i].1);
    match m.key() {
        Some(k) => {
            let d = decimal(k as int);
            assert(h.len() == 3);
            assert(column_views(h)[0] == ("id"@, d));
            assert(column_views(h)[1] == ("content"@, c));
            assert(column_views(h)[2] == ("post_id"@, p));
            assert(names =~= seq!["id"@, "content"@, "post_id"@]);
            assert(values =~= seq![d, c, p]);
            assert(names.drop_last() =~= seq!["id"@, "content"@]);
            assert(values.drop_last() =~= seq![d, c]);
            assert(names.drop_last().drop_last() =~= seq!["id"@]);
            assert(values.drop_last().drop_last() =~= seq![d]);
            assert(join(names.drop_last(), ", "@) == join(names.drop_last().drop_last(), ", "@)
                + ", "@ + names.drop_last().last());
            assert(join(values.drop_last(), ", "@) == join(values.drop_last().drop_last(), ", "@)
                + ", "@ + values.drop_last().last());
            assert(join(names, ", "@) == join(names.drop_last(), ", "@) + ", "@ + names.last());
            assert(join(values, ", "@) == join(values.drop_last(), ", "@) + ", "@ + values.last());
            assert(join(names, ", "@) =~= "id"@ + ", "@ + "content"@ + ", "@ + "post_id"@);
            assert(join(values, ", "@) =~= d + ", "@ + c + ", "@ + p);
        },
        None => {
            assert(h.len() == 2);
            assert(column_views(h)[0] == ("content"@, c));
            assert(column_views(h)[1] == ("post_id"@, p));
            assert(names =~= seq!["content"@, "post_id"@]);
            assert(values =~= seq![c, p]);
            assert(names.drop_last() =~= seq!["content"@]);
            assert(values.drop_last() =~= seq![c]);
            assert(join(names, ", "@) == join(names.drop_last(), ", "@) + ", "@ + names.last());
            assert(join(values, ", "@) == join(values.drop_last(), ", "@) + ", "@ + values.last());
        },
    }
}

/// Telling a stored comment its key sets the key read from the bytes and
/// leaves the comment itself, text and post, as it was.
pub proof fn law_keyed_comment_created(
    before: Keyed<i64, Comment>,
    after: Keyed<i64, Comment>,
    bytes: Seq<u8>,
)
    requires
        <Keyed<i64, Comment> as ModelLifeCycle>::created_with(before, after, bytes),
    ensures
        after.key() == Some(<i64 as Key>::key_of(bytes)),
        after.model() == before.model(),
        after.model().post_id == before.model().post_id,
        after.model().content == before.model().content,
{
}

/// Telling a stored post its key sets the key read from the bytes and leaves
/// the post itself as it was.
pub proof fn law_keyed_post_created(before: KeyedPost, after: KeyedPost, bytes: Seq<u8>)
    requires
        <KeyedPost as ModelLifeCycle>::created_with(before, after, bytes),
    ensures
        after.0.key() == Some(<i64 as Key>::key_of(bytes)),
        after.0.model() == before.0.model(),
{
}

/// A comment given the row id the database assigned (as `assign_row_id`
/// states it) has that row id as its key, and still belongs to its post.
pub proof fn law_row_id_keeps_comment(before: Keyed<i64, Comment>, after: Keyed<i64, Comment>, row_id: i64)
    requires
        exists|bytes: Seq<u8>|
            bytes.len() == 8 && le_i64(bytes) == row_id as int && <Keyed<
                i64,
                Comment,
            > as ModelLifeCycle>::created_with(before, after, bytes),
    ensures
        after.key() == Some(row_id),
        after.model() == before.model(),
{
    let bytes = choose|bytes: Seq<u8>|
        bytes.len() == 8 && le_i64(bytes) == row_id as int && <Keyed<
            i64,
            Comment,
        > as ModelLifeCycle>::created_with(before, after, bytes);
    crate::key::law_row_id_roundtrip(row_id, bytes);
}

} // verus!
