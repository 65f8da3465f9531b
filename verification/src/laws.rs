//! Laws of the store, stated over its model: the `Map<i32, Todo>` view that
//! the contracts in `repositories` speak of. Each law takes the store states
//! that an operation's contract relates and states what callers may rely on
//! across several operations.

use vstd::prelude::*;

verus! {

use crate::repositories::{Todo, UpdateTodo};

/// The ids in `m` are exactly `1..=n`: the shape a store has after `n`
/// creations and no deletion.
pub open spec fn has_consecutive_ids(m: Map<i32, Todo>, n: int) -> bool {
    forall|k: i32| #[trigger] m.contains_key(k) <==> 1 <= k <= n
}

/// A store whose ids are exactly `1..=n` holds exactly `n` records.
pub proof fn lemma_consecutive_ids_len(m: Map<i32, Todo>, n: int)
    requires
        m.dom().finite(),
        has_consecutive_ids(m, n),
        0 <= n <= 0x7fff_ffff,
    ensures
        m.dom().len() == n,
    decreases n,
{
    if n == 0 {
        assert(m.dom() =~= Set::<i32>::empty());
    } else {
        let m2 = m.remove(n as i32);
        assert(m.contains_key(n as i32));
        assert(m.dom().len() == m2.dom().len() + 1);
        assert(has_consecutive_ids(m2, n - 1));
        lemma_consecutive_ids_len(m2, n - 1);
    }
}

/// A record just created is found again: after `create` returns `todo`, the
/// store maps `todo.id` to exactly that record, so a `find(todo.id)` against
/// the same state returns `Some(todo)` by `find`'s contract.
pub proof fn lemma_create_then_find(pre: Map<i32, Todo>, post: Map<i32, Todo>, todo: Todo)
    requires
        post == pre.insert(todo.id, todo),
    ensures
        post.contains_key(todo.id),
        post[todo.id] == todo,
{
}

/// Creation never loses a record and never duplicates an id: on a store
/// whose ids are exactly `1..=n`, the size-derived policy assigns the fresh
/// id `n + 1`, so afterwards the ids are exactly `1..=n + 1` and the record
/// count is `n + 1`. Applied once per creation, this gives: `n` creations
/// on an empty store yield `n` records under `n` distinct ids.
pub proof fn lemma_create_extends_consecutive_ids(
    pre: Map<i32, Todo>,
    post: Map<i32, Todo>,
    todo: Todo,
    n: int,
)
    requires
        pre.dom().finite(),
        has_consecutive_ids(pre, n),
        0 <= n < 0x7fff_ffff,
        todo.id == pre.dom().len() + 1,
        post == pre.insert(todo.id, todo),
    ensures
        !pre.contains_key(todo.id),
        has_consecutive_ids(post, n + 1),
        post.dom().len() == n + 1,
{
    lemma_consecutive_ids_len(pre, n);
    assert(post.dom() =~= pre.dom().insert(todo.id));
}

/// An update changes only what the payload names, and only the one record:
/// a payload field left as `None` keeps the prior field value, a field set
/// to `Some` replaces it, the id stays, and every record under another id
/// is untouched.
pub proof fn lemma_update_changes_only_named_fields(
    pre: Map<i32, Todo>,
    post: Map<i32, Todo>,
    id: i32,
    payload: UpdateTodo,
    t: Todo,
)
    requires
        pre.contains_key(id),
        t.id == id,
        t.text == (match payload.text {
            Some(s) => s,
            None => pre[id].text,
        }),
        t.completed == (match payload.completed {
            Some(b) => b,
            None => pre[id].completed,
        }),
        post == pre.insert(id, t),
    ensures
        post.contains_key(id),
        post[id].id == id,
        payload.text is None ==> post[id].text == pre[id].text,
        payload.completed is None ==> post[id].completed == pre[id].completed,
        payload.text matches Some(s) ==> post[id].text == s,
        payload.completed matches Some(b) ==> post[id].completed == b,
        forall|k: i32| k != id ==> (#[trigger] post.contains_key(k) <==> pre.contains_key(k)),
        forall|k: i32| k != id && #[trigger] pre.contains_key(k) ==> post[k] == pre[k],
{
}

/// After a delete, the id is gone and nothing else moved: the deleted id is
/// absent (a `find(id)` against the new state returns `None`, and `all()`
/// excludes the id), while every record under another id is untouched.
pub proof fn lemma_delete_then_absent(pre: Map<i32, Todo>, post: Map<i32, Todo>, id: i32)
    requires
        post == pre.remove(id),
    ensures
        !post.contains_key(id),
        forall|k: i32| k != id ==> (#[trigger] post.contains_key(k) <==> pre.contains_key(k)),
        forall|k: i32| k != id && #[trigger] pre.contains_key(k) ==> post[k] == pre[k],
{
}

} // verus!
