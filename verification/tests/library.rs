use std::cell::RefCell;
use std::rc::Rc;

use tbd::blog::{self, Comment, Comments, KeyedPost, Post, Posts};
use tbd::changeset::{Changeable, Changes};
use tbd::compile::{Compile, find_sql, limit_sql, select_sql, GenericSqlGateway, SqlValue};
use tbd::executor::{Executor, Task, TaskPoll, QUEUE_CAPACITY};
use tbd::fieldset::{Complete, FieldSetMarker, Sparse};
use tbd::gateway::{Finished, Gateway, Transaction, TransactionImplementation};
use tbd::key::{key_bytes, Key};
use tbd::memory;
use tbd::query::{select, Query};
use tbd::relation::{Relation, RelationField, RelationFieldSet, RelationName, Repository, Stores};
use tbd::sqlite::{assign_row_id, first_row, insert_statement, select_all_statement, select_by_id_statement};
use tbd::text::{i64_decimal, join_strings, join_strs, u64_decimal, usize_decimal};
use tbd::wrapper::{Keyed, ModelLifeCycle, Wrapper};

// ---- keys -----------------------------------------------------------------

#[test]
fn key_bytes_are_little_endian() {
    assert_eq!(key_bytes(1), vec![1, 0, 0, 0, 0, 0, 0, 0]);
    assert_eq!(key_bytes(258), vec![2, 1, 0, 0, 0, 0, 0, 0]);
    assert_eq!(key_bytes(-1), vec![0xff; 8]);
    assert_eq!(key_bytes(i64::MIN), vec![0, 0, 0, 0, 0, 0, 0, 0x80]);
}

#[test]
fn key_from_bytes_reads_little_endian() {
    assert_eq!(i64::from_bytes(&[1, 0, 0, 0, 0, 0, 0, 0]), 1);
    assert_eq!(i64::from_bytes(&[0xff; 8]), -1);
    assert_eq!(i64::from_bytes(&[0, 0, 0, 0, 0, 0, 0, 0x80]), i64::MIN);
}

#[test]
fn unsigned_key_from_bytes() {
    assert_eq!(u64::from_bytes(&[1, 0, 0, 0, 0, 0, 0, 0]), 1);
    assert_eq!(u64::from_bytes(&[0xff; 8]), u64::MAX);
    assert_eq!(u64::from_bytes(&[0, 1, 0, 0, 0, 0, 0, 0, 7]), 256);
}

#[test]
fn key_roundtrip_law_on_values() {
    for id in [0i64, 1, 2, 3, 365, -42, i64::MAX, i64::MIN] {
        assert_eq!(i64::from_bytes(&key_bytes(id)), id);
    }
}

#[test]
fn key_ignores_trailing_bytes() {
    let mut bytes = key_bytes(365);
    bytes.extend_from_slice(&[9, 9, 9]);
    assert_eq!(i64::from_bytes(&bytes), 365);
}

// ---- text -----------------------------------------------------------------

#[test]
fn decimals() {
    assert_eq!(i64_decimal(0), "0");
    assert_eq!(i64_decimal(-17), "-17");
    assert_eq!(u64_decimal(1234567890), "1234567890");
    assert_eq!(usize_decimal(1), "1");
    assert_eq!(i64_decimal(i64::MIN), "-9223372036854775808");
    assert_eq!(i64_decimal(i64::MAX), "9223372036854775807");
    assert_eq!(u64_decimal(u64::MAX), "18446744073709551615");
    assert_eq!(u64_decimal(10), "10");
    assert_eq!(usize_decimal(1000), "1000");
}

#[test]
fn joins() {
    assert_eq!(join_strs(&vec![], ","), "");
    assert_eq!(join_strs(&vec!["a"], ","), "a");
    assert_eq!(join_strs(&vec!["a", "b", "c"], ", "), "a, b, c");
    assert_eq!(join_strings(&vec!["x".to_string(), "y".to_string()], "+"), "x+y");
}

// ---- SQL text ---------------------------------------------------------------

#[test]
fn select_text_of_columns() {
    assert_eq!(select_sql(None, "posts"), "SELECT * FROM posts");
    assert_eq!(select_sql(Some(&vec!["id", "content"]), "posts"), "SELECT id,content FROM posts");
}

#[test]
fn limit_and_find_text() {
    assert_eq!(limit_sql("SELECT * FROM posts".to_string(), 20), "SELECT * FROM posts LIMIT 20");
    assert_eq!(
        find_sql("SELECT * FROM posts".to_string(), "id", "365", 1),
        "SELECT * FROM posts WHERE id = 365 LIMIT 1"
    );
}

#[test]
fn find_is_narrowed_limit_on_values() {
    let narrowed = "SELECT * FROM posts WHERE id = 7".to_string();
    assert_eq!(
        find_sql("SELECT * FROM posts".to_string(), "id", "7", 1),
        limit_sql(narrowed, 1)
    );
}

#[test]
fn sql_values() {
    assert_eq!(365i64.to_sql(), "365");
    assert_eq!(7u64.to_sql(), "7");
}

#[test]
fn markers() {
    assert!(Complete::selects_all());
    assert!(!Sparse::selects_all());
}

#[test]
fn compile_blog_queries() {
    assert_eq!(GenericSqlGateway::compile(&select::<Post>().from::<Posts>()), "SELECT * FROM posts");
    assert_eq!(
        GenericSqlGateway::compile(&select::<(blog::ContentField,)>().from::<Posts>().limit(3)),
        "SELECT content FROM posts LIMIT 3"
    );
    assert_eq!(
        GenericSqlGateway::compile(&select::<(blog::CommentContentField, blog::PostId)>().from::<Comments>()),
        "SELECT content,post_id FROM comments"
    );
    assert_eq!(
        GenericSqlGateway::compile(&select::<Comment>().from::<Comments>().find(2)),
        "SELECT * FROM comments WHERE id = 2 LIMIT 1"
    );
}

#[test]
fn find_query_parameters() {
    let q = select::<Post>().from::<Posts>().find(365);
    assert_eq!(q.parameters().id, 365);
    assert_eq!(*q.parameter(), 365);
    assert_eq!(q.limit().max(), 1);
    let l = select::<Post>().from::<Posts>().limit(12);
    assert_eq!(l.max(), 12);
}

#[test]
fn field_names() {
    assert_eq!(<(blog::ContentField,)>::names(), vec!["content"]);
    assert_eq!(<(blog::CommentContentField, blog::PostId)>::names(), vec!["content", "post_id"]);
    assert_eq!(Post::names(), vec!["id", "content"]);
    assert_eq!(Comment::names(), vec!["id", "content", "post_id"]);
    assert_eq!(<blog::PostKeyField as RelationField>::name(), "id");
}

// ---- SQLite statements --------------------------------------------------------

#[test]
fn sqlite_select_statements() {
    assert_eq!(select_all_statement("posts"), "SELECT * FROM posts");
    assert_eq!(select_by_id_statement("posts", 1), "SELECT * FROM posts where id = 1");
    assert_eq!(select_by_id_statement("comments", -3), "SELECT * FROM comments where id = -3");
}

#[test]
fn sqlite_insert_statement() {
    let fields = vec![
        ("id".to_string(), "4".to_string()),
        ("content".to_string(), "\"hi\"".to_string()),
    ];
    assert_eq!(
        insert_statement("posts", &fields),
        "INSERT INTO posts (id, content)\n                       VALUES (4, \"hi\")"
    );
    assert_eq!(
        insert_statement("empty", &vec![]),
        "INSERT INTO empty ()\n                       VALUES ()"
    );
}

#[test]
fn first_row_of_lookup() {
    assert_eq!(first_row(vec![3, 4, 5]), Some(3));
    assert_eq!(first_row::<i32>(vec![]), None);
}

// ---- wrappers and hydration ---------------------------------------------------

#[test]
fn keyed_post_life_cycle() {
    let mut post = KeyedPost::wrap(Post { content: "hello".to_string() });
    assert_eq!(post.0.pk, None);
    post.created(&key_bytes(12));
    assert_eq!(post.0.pk, Some(12));
    assert_eq!(post.0.deref().content, "hello");
}

#[test]
fn unkeyed_models_ignore_the_key_bytes() {
    let mut post = Post { content: "plain".to_string() };
    post.created(&[]);
    assert_eq!(post.content, "plain");
    let mut comment = Comment { content: "c".to_string(), post_id: 4 };
    comment.created(&[1, 2, 3]);
    assert_eq!(comment.post_id, 4);
}

#[test]
fn keyed_new_and_with_key() {
    let k: Keyed<i64, Comment> = Keyed::new(Comment { content: "c".to_string(), post_id: 2 });
    assert_eq!(k.pk, None);
    let mut k2: Keyed<i64, Comment> = Keyed::with_key(9, Comment { content: "d".to_string(), post_id: 1 });
    assert_eq!(k2.pk, Some(9));
    k2.set_model(Comment { content: "e".to_string(), post_id: 3 });
    assert_eq!(k2.pk, Some(9));
    assert_eq!(k2.deref().content, "e");
    assert_eq!(k2.into_model().post_id, 3);
}

#[test]
fn assign_row_id_sets_key() {
    let mut post = KeyedPost(Keyed::new(Post { content: "p".to_string() }));
    assign_row_id(&mut post, 77);
    assert_eq!(post.0.pk, Some(77));
}

#[test]
fn hydrate_posts() {
    let new_post = KeyedPost(Keyed::new(Post { content: "Post number 1".to_string() }));
    assert_eq!(
        Posts::hydrate(&new_post),
        vec![("content".to_string(), "\"Post number 1\"".to_string())]
    );
    let stored = KeyedPost(Keyed::with_key(5, Post { content: "x".to_string() }));
    assert_eq!(
        Posts::hydrate(&stored),
        vec![("id".to_string(), "5".to_string()), ("content".to_string(), "\"x\"".to_string())]
    );
    assert_eq!(
        insert_statement(Posts::name(), &Posts::hydrate(&stored)),
        "INSERT INTO posts (id, content)\n                       VALUES (5, \"x\")"
    );
}

#[test]
fn hydrate_comments() {
    let c: Keyed<i64, Comment> = Keyed::new(Comment { content: "nice".to_string(), post_id: 3 });
    assert_eq!(
        Comments::hydrate(&c),
        vec![
            ("content".to_string(), "\"nice\"".to_string()),
            ("post_id".to_string(), "3".to_string())
        ]
    );
    assert_eq!(Comments::name(), "comments");
    assert_eq!(Post::relation_name(), "posts");
    assert_eq!(Comment::relation_name(), "comments");
}

#[test]
fn sample_blog_data() {
    let posts = blog::sample_posts();
    assert_eq!(posts.len(), 3);
    assert_eq!(posts[0].content, "Post number 1");
    assert_eq!(posts[2].content, "Post number 3");
    let comments = blog::sample_comments();
    assert_eq!(comments.len(), 9);
    assert_eq!(comments[0].content, "Comment number 1 on post 2");
    assert_eq!(comments[0].post_id, 2);
    assert_eq!(comments[2].content, "Comment number 3 on post 1");
    assert_eq!(comments[8].post_id, 1);
}

// ---- changesets ---------------------------------------------------------------

struct RecordingTransaction {
    statements: Vec<String>,
    next_id: i64,
}

impl TransactionImplementation for RecordingTransaction {
    fn insert<R: Relation>(&mut self, m: &mut R::Wrapper) {
        let statement = insert_statement(R::name(), &R::hydrate(m));
        self.statements.push(statement);
        self.next_id += 1;
        assign_row_id(m, self.next_id);
    }
}

struct RecordingGateway {
    committed: RefCell<Vec<String>>,
    transactions: RefCell<usize>,
}

impl Gateway for RecordingGateway {
    type TransactionImplementation = RecordingTransaction;

    fn start_transaction(&self) -> Transaction<RecordingTransaction> {
        *self.transactions.borrow_mut() += 1;
        Transaction::new(RecordingTransaction { statements: Vec::new(), next_id: 0 })
    }

    fn finish_transaction(&self, transaction: Transaction<RecordingTransaction>) -> Finished {
        let (inner, finished) = transaction.finish();
        self.committed.borrow_mut().extend(inner.statements);
        finished
    }
}

struct RecordingRepository {
    gateway: RecordingGateway,
}

impl Repository for RecordingRepository {
    type Gateway = RecordingGateway;

    fn gateway(&self) -> &RecordingGateway {
        &self.gateway
    }
}

impl Stores<Posts> for RecordingRepository {}
impl Stores<Comments> for RecordingRepository {}

fn recording_repository() -> RecordingRepository {
    RecordingRepository {
        gateway: RecordingGateway { committed: RefCell::new(Vec::new()), transactions: RefCell::new(0) },
    }
}

#[test]
fn changeset_commits_in_order() {
    let repos = recording_repository();
    let mut changeset = RecordingRepository::change().inserts::<Posts>();
    for post in blog::sample_posts() {
        changeset.push(KeyedPost(Keyed::new(post)));
    }
    let mut changeset = changeset.inserts::<Comments>();
    for comment in blog::sample_comments() {
        changeset.push(Keyed::new(comment));
    }
    changeset.commit(&repos);

    let committed = repos.gateway.committed.borrow();
    assert_eq!(*repos.gateway.transactions.borrow(), 1);
    assert_eq!(committed.len(), 12);
    assert_eq!(
        committed[0],
        "INSERT INTO posts (content)\n                       VALUES (\"Post number 1\")"
    );
    assert_eq!(
        committed[2],
        "INSERT INTO posts (content)\n                       VALUES (\"Post number 3\")"
    );
    assert_eq!(
        committed[3],
        "INSERT INTO comments (content, post_id)\n                       VALUES (\"Comment number 1 on post 2\", 2)"
    );
    assert_eq!(
        committed[11],
        "INSERT INTO comments (content, post_id)\n                       VALUES (\"Comment number 9 on post 1\", 1)"
    );
    // every stored model got the key the transaction handed out, in order
    for (i, op) in changeset.after.operations.iter().enumerate() {
        assert_eq!(op.get().0.pk, Some(i as i64 + 1));
    }
    for (i, op) in changeset.operations.iter().enumerate() {
        assert_eq!(op.get().pk, Some(i as i64 + 4));
    }
}

#[test]
fn single_inserts_chain() {
    let repos = recording_repository();
    let mut changeset = RecordingRepository::change()
        .insert::<Posts>(KeyedPost(Keyed::new(Post { content: "first".to_string() })))
        .insert::<Comments>(Keyed::new(Comment { content: "second".to_string(), post_id: 1 }));
    let transaction = changeset.build_transaction(&repos);
    let statements = transaction.finish().0.statements;
    assert_eq!(statements.len(), 2);
    assert!(statements[0].starts_with("INSERT INTO posts"));
    assert!(statements[1].starts_with("INSERT INTO comments"));
    assert_eq!(changeset.after.operation.get().0.pk, Some(1));
    assert_eq!(changeset.operation.get().pk, Some(2));
}

fn stores_both<R: Stores<(Posts, Comments)>>(_repos: &R) -> bool {
    true
}

#[test]
fn a_repository_storing_two_relations_stores_the_pair() {
    assert!(stores_both(&recording_repository()));
}

#[test]
fn empty_changeset_commits_nothing() {
    let repos = recording_repository();
    let mut changeset = RecordingRepository::change().inserts::<Posts>();
    changeset.commit(&repos);
    assert_eq!(repos.gateway.committed.borrow().len(), 0);
}

// ---- executor -----------------------------------------------------------------

struct Scripted {
    name: usize,
    script: Vec<TaskPoll>,
    log: Rc<RefCell<Vec<usize>>>,
}

impl Task for Scripted {
    fn poll(&mut self) -> TaskPoll {
        self.log.borrow_mut().push(self.name);
        if self.script.is_empty() {
            TaskPoll::Ready
        } else {
            self.script.remove(0)
        }
    }
}

fn scripted(name: usize, script: Vec<TaskPoll>, log: &Rc<RefCell<Vec<usize>>>) -> Scripted {
    Scripted { name, script, log: log.clone() }
}

#[test]
fn executor_polls_in_queue_order() {
    let log = Rc::new(RefCell::new(Vec::new()));
    let mut executor = Executor::new();
    let a = executor.spawn_obj(scripted(0, vec![], &log));
    let b = executor.spawn_obj(scripted(1, vec![TaskPoll::Woken], &log));
    let c = executor.spawn_obj(scripted(2, vec![], &log));
    assert_eq!((a, b, c), (0, 1, 2));
    assert_eq!(executor.queue_len(), 3);
    let polled = executor.run();
    assert_eq!(polled, 4);
    assert_eq!(*log.borrow(), vec![0, 1, 2, 1]);
    assert_eq!(executor.queue_len(), 0);
    assert!(executor.is_finished(0) && executor.is_finished(1) && executor.is_finished(2));
}

#[test]
fn executor_parks_pending_tasks_until_woken() {
    let log = Rc::new(RefCell::new(Vec::new()));
    let mut executor = Executor::new();
    let a = executor.spawn_obj(scripted(7, vec![TaskPoll::Pending], &log));
    assert_eq!(executor.run(), 1);
    assert!(!executor.is_finished(a));
    assert_eq!(executor.queue_len(), 0);
    executor.wake(a);
    assert_eq!(executor.run(), 1);
    assert!(executor.is_finished(a));
    // waking a finished task is harmless: it is taken off and skipped
    executor.wake(a);
    assert_eq!(executor.run(), 1);
    assert_eq!(*log.borrow(), vec![7, 7]);
}

#[test]
fn executor_repolls_self_waking_task_until_ready() {
    let log = Rc::new(RefCell::new(Vec::new()));
    let mut executor = Executor::new();
    let a = executor.spawn_obj(scripted(3, vec![TaskPoll::Woken, TaskPoll::Woken, TaskPoll::Woken], &log));
    let b = executor.spawn_obj(scripted(4, vec![TaskPoll::Pending], &log));
    assert_eq!(executor.run(), 5);
    assert_eq!(*log.borrow(), vec![3, 4, 3, 3, 3]);
    assert!(executor.is_finished(a));
    assert!(!executor.is_finished(b));
    assert_eq!(executor.queue_len(), 0);
}

#[test]
fn executor_starts_empty() {
    let mut executor: Executor<Scripted> = Executor::new();
    assert_eq!(executor.num_tasks(), 0);
    assert_eq!(executor.run(), 0);
    assert_eq!(QUEUE_CAPACITY, 1000);
}

// ---- in-memory repository -------------------------------------------------------

#[test]
fn memory_repository_reads() {
    let repos = memory::sample_repository();
    let posts = repos.all_posts();
    assert_eq!(posts.len(), 3);
    assert_eq!(posts[1].id, 2);
    assert_eq!(posts[1].content, "Post number 2");
    let comments = repos.all_comments();
    assert_eq!(comments.len(), 9);
    assert_eq!(comments[4].content, "Comment number 5 on post 3");
    let two = repos.one_comment(2).unwrap();
    assert_eq!(two.id, 2);
    assert_eq!(two.post_id, 3);
    assert_eq!(two.content, "Comment number 2 on post 3");
    assert_eq!(repos.one_post(3).unwrap().content, "Post number 3");
    assert!(repos.one_post(365).is_none());
    assert!(repos.one_comment(0).is_none());
}

#[test]
fn memory_lookup_finds_earliest() {
    let repos = memory::BlogRepository {
        gateway: memory::MemoryGateway {
            posts: vec![
                memory::Post { id: 4, content: "a".to_string() },
                memory::Post { id: 4, content: "b".to_string() },
            ],
            comments: vec![],
        },
    };
    assert_eq!(repos.one_post(4).unwrap().content, "a");
}
