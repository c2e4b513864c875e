//! A repository of a blog held in memory: posts and comments in vectors, read
//! all at once or one by id.

use crate::text::{decimal, u64_decimal};
use vstd::prelude::*;
use vstd::string::*;

verus! {

/// A post of the blog.
#[derive(Debug)]
pub struct Post {
    pub id: u64,
    pub content: String,
}

/// A comment on a post of the blog.
#[derive(Debug)]
pub struct Comment {
    pub id: u64,
    pub content: String,
    pub post_id: u64,
}

impl Post {
    /// A copy of the post.
    pub fn duplicate(&self) -> (p: Post)
        ensures
            p == *self,
    {
        Post { id: self.id, content: self.content.clone() }
    }
}

impl Comment {
    /// A copy of the comment.
    pub fn duplicate(&self) -> (c: Comment)
        ensures
            c == *self,
    {
        Comment { id: self.id, content: self.content.clone(), post_id: self.post_id }
    }
}

/// The storage: every post and every comment.
pub struct MemoryGateway {
    pub posts: Vec<Post>,
    pub comments: Vec<Comment>,
}

/// The blog's repository, reached through an in-memory gateway.
pub struct BlogRepository {
    pub gateway: MemoryGateway,
}

/// `i` is the first index of `ids` that holds `id`.
pub open spec fn is_first_with(ids: Seq<u64>, id: u64, i: int) -> bool {
    &&& 0 <= i < ids.len()
    &&& ids[i] == id
    &&& forall|j: int| 0 <= j < i ==> ids[j] != id
}

/// The ids of posts.
pub open spec fn post_ids(posts: Seq<Post>) -> Seq<u64> {
    posts.map_values(|p: Post| p.id)
}

/// The ids of comments.
pub open spec fn comment_ids(comments: Seq<Comment>) -> Seq<u64> {
    comments.map_values(|c: Comment| c.id)
}

/// The first element of `items` whose id (as given by `ids`) is `id`.
pub open spec fn first_with<T>(items: Seq<T>, ids: Seq<u64>, id: u64) -> Option<T> {
    if exists|i: int| is_first_with(ids, id, i) {
        Some(items[choose|i: int| is_first_with(ids, id, i)])
    } else {
        None
    }
}

proof fn lemma_first_with_unique(ids: Seq<u64>, id: u64, i: int, k: int)
    requires
        is_first_with(ids, id, i),
        is_first_with(ids, id, k),
    ensures
        i == k,
{
}

proof fn lemma_first_exists(ids: Seq<u64>, id: u64, i: int)
    requires
        0 <= i < ids.len(),
        ids[i] == id,
    ensures
        exists|k: int| is_first_with(ids, id, k),
    decreases i,
{
    if exists|j: int| 0 <= j < i && ids[j] == id {
        let j = choose|j: int| 0 <= j < i && ids[j] == id;
        lemma_first_exists(ids, id, j);
    } else {
        assert(is_first_with(ids, id, i));
    }
}

/// A lookup by id finds something exactly when some element has that id,
/// and what it finds is the earliest such element.
pub proof fn law_lookup_finds_earliest<T>(items: Seq<T>, ids: Seq<u64>, id: u64)
    requires
        items.len() == ids.len(),
    ensures
        first_with(items, ids, id) is Some <==> exists|i: int| 0 <= i < ids.len() && ids[i] == id,
        forall|i: int|
            is_first_with(ids, id, i) ==> first_with(items, ids, id) == Some(items[i]),
{
    if exists|i: int| 0 <= i < ids.len() && ids[i] == id {
        let i = choose|i: int| 0 <= i < ids.len() && ids[i] == id;
        lemma_first_exists(ids, id, i);
    }
    assert forall|i: int| is_first_with(ids, id, i) implies first_with(items, ids, id) == Some(
        items[i],
    ) by {
        let k = choose|k: int| is_first_with(ids, id, k);
        lemma_first_with_unique(ids, id, i, k);
    }
}

impl BlogRepository {
    /// Every post, in storage order.
    pub fn all_posts(&self) -> (posts: Vec<Post>)
        ensures
            posts@ == self.gateway.posts@,
    {
        let mut posts: Vec<Post> = Vec::new();
        let mut i: usize = 0;
        while i < self.gateway.posts.len()
            invariant
                i <= self.gateway.posts@.len(),
                posts@ == self.gateway.posts@.take(i as int),
            decreases self.gateway.posts@.len() - i,
        {
            posts.push(self.gateway.posts[i].duplicate());
            i = i + 1;
            assert(posts@ =~= self.gateway.posts@.take(i as int));
        }
        assert(self.gateway.posts@.take(i as int) =~= self.gateway.posts@);
        posts
    }

    /// The first post with the given id, if any.
    pub fn one_post(&self, id: u64) -> (post: Option<Post>)
        ensures
            post == first_with(self.gateway.posts@, post_ids(self.gateway.posts@), id),
    {
        let ghost ids = post_ids(self.gateway.posts@);
        let mut i: usize = 0;
        while i < self.gateway.posts.len()
            invariant
                i <= self.gateway.posts@.len(),
                ids == post_ids(self.gateway.posts@),
                forall|j: int| 0 <= j < i ==> ids[j] != id,
            decreases self.gateway.posts@.len() - i,
        {
            if self.gateway.posts[i].id == id {
                proof {
                    assert(is_first_with(ids, id, i as int));
                    let k = choose|k: int| is_first_with(ids, id, k);
                    lemma_first_with_unique(ids, id, i as int, k);
                }
                return Some(self.gateway.posts[i].duplicate());
            }
            i = i + 1;
        }
        None
    }

    /// Every comment, in storage order.
    pub fn all_comments(&self) -> (comments: Vec<Comment>)
        ensures
            comments@ == self.gateway.comments@,
    {
        let mut comments: Vec<Comment> = Vec::new();
        let mut i: usize = 0;
        while i < self.gateway.comments.len()
            invariant
                i <= self.gateway.comments@.len(),
                comments@ == self.gateway.comments@.take(i as int),
            decreases self.gateway.comments@.len() - i,
        {
            comments.push(self.gateway.comments[i].duplicate());
            i = i + 1;
            assert(comments@ =~= self.gateway.comments@.take(i as int));
        }
        assert(self.gateway.comments@.take(i as int) =~= self.gateway.comments@);
        comments
    }

    /// The first comment with the given id, if any.
    pub fn one_comment(&self, id: u64) -> (comment: Option<Comment>)
        ensures
            comment == first_with(self.gateway.comments@, comment_ids(self.gateway.comments@), id),
    {
        let ghost ids = comment_ids(self.gateway.comments@);
        let mut i: usize = 0;
        while i < self.gateway.comments.len()
            invariant
                i <= self.gateway.comments@.len(),
                ids == comment_ids(self.gateway.comments@),
                forall|j: int| 0 <= j < i ==> ids[j] != id,
            decreases self.gateway.comments@.len() - i,
        {
            if self.gateway.comments[i].id == id {
                proof {
                    assert(is_first_with(ids, id, i as int));
                    let k = choose|k: int| is_first_with(ids, id, k);
                    lemma_first_with_unique(ids, id, i as int, k);
                }
                return Some(self.gateway.comments[i].duplicate());
            }
            i = i + 1;
        }
        None
    }
}

/// The text of the sample post number `n`.
pub open spec fn post_text(n: int) -> Seq<char> {
    "Post number "@ + decimal(n)
}

/// The text of the sample comment number `n` on post `post`.
pub open spec fn comment_text(n: int, post: int) -> Seq<char> {
    "Comment number "@ + decimal(n) + " on post "@ + decimal(post)
}

/// The post a sample comment belongs to: comments go round the three posts.
pub open spec fn comment_post(n: int) -> int {
    n % 3 + 1
}

/// The sample posts: ids 1 to 3, each with its number in its text.
pub fn sample_posts() -> (posts: Vec<Post>)
    ensures
        posts@.len() == 3,
        forall|i: int|
            0 <= i < 3 ==> #[trigger] posts@[i].id == i + 1 && posts@[i].content@ == post_text(i + 1),
{
    let mut posts: Vec<Post> = Vec::new();
    let mut id: u64 = 1;
    while id <= 3
        invariant
            1 <= id <= 4,
            posts@.len() == id - 1,
            forall|i: int|
                0 <= i < id - 1 ==> #[trigger] posts@[i].id == i + 1 && posts@[i].content@
                    == post_text(i + 1),
        decreases 4 - id,
    {
        let mut content = String::from_str("Post number ");
        let n = u64_decimal(id);
        content.append(n.as_str());
        posts.push(Post { id: id, content: content });
        id = id + 1;
    }
    posts
}

/// The sample comments: ids 1 to 9, comment `n` on post `n % 3 + 1`.
pub fn sample_comments() -> (comments: Vec<Comment>)
    ensures
        comments@.len() == 9,
        forall|i: int|
            0 <= i < 9 ==> {
                &&& #[trigger] comments@[i].id == i + 1
                &&& comments@[i].post_id == comment_post(i + 1)
                &&& comments@[i].content@ == comment_text(i + 1, comment_post(i + 1))
            },
{
    let mut comments: Vec<Comment> = Vec::new();
    let mut id: u64 = 1;
    while id <= 9
        invariant
            1 <= id <= 10,
            comments@.len() == id - 1,
            forall|i: int|
                0 <= i < id - 1 ==> {
                    &&& #[trigger] comments@[i].id == i + 1
                    &&& comments@[i].post_id == comment_post(i + 1)
                    &&& comments@[i].content@ == comment_text(i + 1, comment_post(i + 1))
                },
        decreases 10 - id,
    {
        let post_id = id % 3;
        let mut content = String::from_str("Comment number ");
        let n = u64_decimal(id);
        content.append(n.as_str());
        content.append(" on post ");
        let p = u64_decimal(post_id + 1);
        content.append(p.as_str());
        comments.push(Comment { id: id, content: content, post_id: post_id + 1 });
        id = id + 1;
    }
    comments
}

/// The in-memory blog: the sample posts and comments.
pub fn sample_repository() -> (repos: BlogRepository)
    ensures
        repos.gateway.posts@.len() == 3,
        repos.gateway.comments@.len() == 9,
        forall|i: int|
            0 <= i < 3 ==> #[trigger] repos.gateway.posts@[i].id == i + 1
                && repos.gateway.posts@[i].content@ == post_text(i + 1),
        forall|i: int|
            0 <= i < 9 ==> {
                &&& #[trigger] repos.gateway.comments@[i].id == i + 1
                &&& repos.gateway.comments@[i].post_id == comment_post(i + 1)
                &&& repos.gateway.comments@[i].content@ == comment_text(i + 1, comment_post(i + 1))
            },
{
    let posts = sample_posts();
    let comments = sample_comments();
    BlogRepository { gateway: MemoryGateway { posts, comments } }
}

} // verus!
