//! A circular buffer of the three most recent items.

use vstd::prelude::*;

verus! {

/// Whether `x` is a value that `T::default()` may return: what an unfilled
/// slot of a [`Buffer`] holds.
pub open spec fn is_placeholder<T: Default>(x: T) -> bool {
    call_ensures(T::default, (), x)
}

/// The window `w` after `item` went in: `item` is now the newest, the two
/// younger items of `w` follow, and the oldest of `w` is gone.
pub open spec fn pushed<T>(w: Seq<T>, item: T) -> Seq<T> {
    seq![item, w[0], w[1]]
}

/// The window `w` after every item of `items` went in, first to last.
pub open spec fn pushed_all<T>(w: Seq<T>, items: Seq<T>) -> Seq<T>
    decreases items.len(),
{
    if items.len() == 0 {
        w
    } else {
        pushed(pushed_all(w, items.drop_last()), items.last())
    }
}

/// Buffer is a circular buffer of size 3 with a single cursor.
pub struct Buffer<T> {
    data: [T; 3],
    cursor: usize,
}

impl<T> View for Buffer<T> {
    type V = Seq<T>;

    /// The three held items, newest first.
    closed spec fn view(&self) -> Seq<T> {
        seq![
            self.data@[(self.cursor + 2) % 3],
            self.data@[(self.cursor + 1) % 3],
            self.data@[self.cursor as int],
        ]
    }
}

impl<T> Buffer<T> {
    #[verifier::type_invariant]
    spec fn cursor_in_range(&self) -> bool {
        self.cursor < 3
    }

    /// A buffer always holds exactly three items.
    pub proof fn lemma_len(&self)
        ensures
            self@.len() == 3,
    {
    }
}

impl<T: Default + Clone> Buffer<T> {
    /// An empty buffer: every slot holds a placeholder.
    pub fn new() -> (buf: Self)
        ensures
            buf@.len() == 3,
            forall|i: int| 0 <= i < 3 ==> is_placeholder(#[trigger] buf@[i]),
    {
        Self { data: [Default::default(), Default::default(), Default::default()], cursor: 0 }
    }

    /// Push a value to the buffer, over the oldest one.
    pub fn push(&mut self, value: T)
        ensures
            final(self)@ == pushed(old(self)@, value),
    {
        proof {
            use_type_invariant(&*self);
        }
        self.data[self.cursor] = value;
        self.cursor = (self.cursor + 1) % 3;
    }

    /// Return a vector of the buffer's data, from newest to oldest.
    pub fn to_vec(&self) -> (items: Vec<T>)
        ensures
            items@.len() == 3,
            forall|i: int| 0 <= i < 3 ==> cloned(self@[i], #[trigger] items@[i]),
    {
        proof {
            use_type_invariant(self);
        }
        let mut result: Vec<T> = Vec::new();
        let mut k: usize = 3;
        while k > 0
            invariant
                k <= 3,
                self.cursor < 3,
                result@.len() == 3 - k,
                forall|i: int| 0 <= i < 3 - k ==> cloned(self@[i], #[trigger] result@[i]),
            decreases k,
        {
            k = k - 1;
            result.push(self.data[(self.cursor + k) % 3].clone());
        }
        result
    }
}

/// After any run of pushes the buffer holds the latest items, newest first;
/// where fewer than three went in, what it held before fills the older slots
/// in its old order.
pub proof fn lemma_pushed_all_holds_latest<T>(w: Seq<T>, items: Seq<T>)
    requires
        w.len() == 3,
    ensures
        pushed_all(w, items).len() == 3,
        forall|i: int|
            0 <= i < 3 ==> #[trigger] pushed_all(w, items)[i] == if i < items.len() {
                items[items.len() - 1 - i]
            } else {
                w[i - items.len()]
            },
    decreases items.len(),
{
    if items.len() > 0 {
        lemma_pushed_all_holds_latest(w, items.drop_last());
    }
}

} // verus!
