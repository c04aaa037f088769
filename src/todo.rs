use vstd::prelude::*;

verus! {

/// One to-do item.
pub struct Todo {
    pub id: usize,
    pub user_id: usize,
    pub title: String,
    pub completed: bool,
}

pub struct TodoView {
    pub id: usize,
    pub user_id: usize,
    pub title: Seq<char>,
    pub completed: bool,
}

impl View for Todo {
    type V = TodoView;

    open spec fn view(&self) -> TodoView {
        TodoView { id: self.id, user_id: self.user_id, title: self.title@, completed: self.completed }
    }
}

pub open spec fn todo_views(s: Seq<Todo>) -> Seq<TodoView> {
    s.map_values(|t: Todo| t@)
}

/// The to-do items, in the order they were created.
pub struct TodoStore {
    pub items: Vec<Todo>,
}

impl TodoStore {
    /// A store with no items.
    pub fn new() -> (r: TodoStore)
        ensures
            r.items@.len() == 0,
    {
        TodoStore { items: Vec::new() }
    }

    /// Copies of the items whose `id` equals `id`, in store order.
    pub fn todos_for(&self, id: usize) -> (r: Vec<Todo>)
        ensures
            todo_views(r@) == todo_views(self.items@).filter(|t: TodoView| t.id == id),
    {
        let mut r: Vec<Todo> = Vec::new();
        let mut i: usize = 0;
        while i < self.items.len()
            invariant
                i <= self.items@.len(),
                todo_views(r@) == todo_views(self.items@.take(i as int)).filter(|t: TodoView| t.id == id),
            decreases self.items.len() - i,
        {
            let t = &self.items[i];
            proof {
                assert(todo_views(self.items@.take(i + 1)).drop_last() =~= todo_views(self.items@.take(i as int)));
                reveal(Seq::filter);
            }
            if t.id == id {
                r.push(Todo { id: t.id, user_id: t.user_id, title: t.title.clone(), completed: t.completed });
                assert(todo_views(r@) =~= todo_views(self.items@.take(i + 1)).filter(|t: TodoView| t.id == id));
            } else {
                assert(todo_views(r@) =~= todo_views(self.items@.take(i + 1)).filter(|t: TodoView| t.id == id));
            }
            i = i + 1;
        }
        assert(self.items@.take(self.items@.len() as int) =~= self.items@);
        r
    }

    /// Appends a new, unfinished item.
    pub fn add(&mut self, id: usize, user_id: usize, title: String)
        ensures
            todo_views(final(self).items@) == todo_views(old(self).items@).push(
                TodoView { id, user_id, title: title@, completed: false },
            ),
    {
        self.items.push(Todo { id, user_id, title, completed: false });
        assert(todo_views(self.items@) =~= todo_views(old(self).items@).push(
            TodoView { id, user_id, title: title@, completed: false },
        ));
    }
}

impl Default for TodoStore {
    fn default() -> (r: TodoStore)
        ensures
            r.items@.len() == 0,
    {
        TodoStore::new()
    }
}

} // verus!
