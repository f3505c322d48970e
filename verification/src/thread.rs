//! A discussion thread: a root item, replies to it on a main thread, and
//! for each main-thread item a reply thread of its own. A cursor (the
//! "finger") points at the item currently looked at; navigation moves it,
//! deletion marks the item dead without removing it.

use vstd::prelude::*;

verus! {

use vstd::std_specs::cmp::PartialEqSpec;

/// The liveness of an item: created, or created and then deleted. Deleted
/// items keep their content so that the shape of the thread survives.
#[derive(Debug, Clone)]
pub enum Status<A> {
    Live(A),
    Dead(A),
}

impl<A> Status<A> {
    /// The content, whatever the liveness.
    pub open spec fn value_spec(self) -> A {
        match self {
            Status::Live(a) => a,
            Status::Dead(a) => a,
        }
    }

    pub open spec fn is_live(self) -> bool {
        self is Live
    }

    /// Mark the item dead, whatever it was before. The content carried
    /// over is a clone of the old one.
    fn kill(&mut self) where A: Clone
        ensures
            !final(self).is_live(),
            cloned(old(self).value_spec(), final(self).value_spec()),
    {
        let v = self.get().clone();
        *self = Status::Dead(v);
    }

    /// A reference to the content.
    pub fn get(&self) -> (r: &A)
        ensures
            *r == self.value_spec(),
    {
        match self {
            Status::Live(a) => a,
            Status::Dead(a) => a,
        }
    }

    /// A mutable reference to the content; the liveness stays what it was.
    fn get_mut(&mut self) -> (r: &mut A)
        ensures
            *r == old(self).value_spec(),
            final(self).value_spec() == *final(r),
            final(self).is_live() == old(self).is_live(),
    {
        match self {
            Status::Live(a) => a,
            Status::Dead(a) => a,
        }
    }

    /// The content, if the item is live.
    pub fn live(&self) -> (r: Option<&A>)
        ensures
            match r {
                Some(a) => self.is_live() && *a == self.value_spec(),
                None => !self.is_live(),
            },
    {
        match self {
            Status::Live(a) => Some(a),
            Status::Dead(_) => None,
        }
    }

    /// The content, if the item has been deleted.
    pub fn dead(&self) -> (r: Option<&A>)
        ensures
            match r {
                Some(a) => !self.is_live() && *a == self.value_spec(),
                None => self.is_live(),
            },
    {
        match self {
            Status::Dead(a) => Some(a),
            Status::Live(_) => None,
        }
    }
}

impl<A: PartialEq> PartialEq for Status<A> {
    /// Two items are equal when their liveness and content agree.
    fn eq(&self, other: &Self) -> (r: bool) {
        match (self, other) {
            (Status::Live(a), Status::Live(b)) => a == b,
            (Status::Dead(a), Status::Dead(b)) => a == b,
            _ => false,
        }
    }
}

impl<A: PartialEq> vstd::std_specs::cmp::PartialEqSpecImpl for Status<A> {
    open spec fn obeys_eq_spec() -> bool {
        A::obeys_eq_spec()
    }

    open spec fn eq_spec(&self, other: &Self) -> bool {
        match (self, other) {
            (Status::Live(a), Status::Live(b)) => A::eq_spec(a, b),
            (Status::Dead(a), Status::Dead(b)) => A::eq_spec(a, b),
            _ => false,
        }
    }
}

/// Where a navigation or edit could not go.
#[derive(Debug, Clone, Copy, PartialEq, Eq, Structural)]
pub enum Error {
    /// Tried to move before the first item of the main thread.
    PreviousMainOutOfBounds,
    /// Tried to move within a reply thread while on the main thread.
    PreviousThreadOnMain,
    /// Tried to move past the last item of the main thread.
    NextMainOutOfBounds,
    /// Tried to move past the last item of a reply thread.
    NextRepliesOutOfBound,
    /// Tried to delete the root of the thread.
    DeleteFirstMain,
}

/// Whether navigation and replies act on the main thread or on the reply
/// thread of the current main-thread item.
#[derive(Debug, Clone, Copy)]
pub enum ReplyTo {
    Main,
    Thread,
}

/// The cursor into a [`Thread`]: at the root, at a main-thread item, or at
/// a reply (`(main index, reply index)`).
#[derive(Debug, Clone, Copy)]
pub enum Finger {
    Root,
    Main(usize),
    Thread((usize, usize)),
}

/// A main-thread item together with the replies to it: element 0 is the
/// item itself, the rest are the replies, oldest first. Never empty.
#[derive(Debug, Clone)]
pub struct Replies<A> {
    items: Vec<Status<A>>,
}

impl<A> View for Replies<A> {
    type V = Seq<Status<A>>;

    closed spec fn view(&self) -> Seq<Status<A>> {
        self.items@
    }
}

impl<A> Replies<A> {
    pub open spec fn wf(self) -> bool {
        self@.len() >= 1
    }

    pub(crate) fn new(a: A) -> (r: Self)
        ensures
            r@ =~= seq![Status::Live(a)],
    {
        let mut items: Vec<Status<A>> = Vec::new();
        items.push(Status::Live(a));
        Replies { items }
    }

    pub(crate) fn from_items(items: Vec<Status<A>>) -> (r: Self)
        requires
            items@.len() >= 1,
        ensures
            r@ == items@,
            r.wf(),
    {
        Replies { items }
    }

    pub(crate) fn into_items(self) -> (r: Vec<Status<A>>)
        ensures
            r@ == self@,
    {
        self.items
    }

    /// Append a live reply.
    pub(crate) fn reply(&mut self, a: A)
        ensures
            final(self)@ == old(self)@.push(Status::Live(a)),
    {
        self.items.push(Status::Live(a));
    }

    pub(crate) fn first(&self) -> (r: &Status<A>)
        requires
            self.wf(),
        ensures
            *r == self@[0],
    {
        &self.items[0]
    }

    pub(crate) fn first_mut(&mut self) -> (r: &mut Status<A>)
        requires
            old(self).wf(),
        ensures
            *r == old(self)@[0],
            final(self)@ == old(self)@.update(0, *final(r)),
    {
        &mut self.items[0]
    }

    /// Whether there is nothing here; by construction there always is.
    pub fn is_empty(&self) -> (r: bool)
        ensures
            r == (self@.len() == 0),
    {
        self.items.len() == 0
    }

    /// The item itself plus the number of replies.
    pub fn len(&self) -> (r: usize)
        ensures
            r == self@.len(),
    {
        self.items.len()
    }

    /// The element at `i`: the item for 0, its replies after.
    pub fn get(&self, i: usize) -> (r: Option<&Status<A>>)
        ensures
            match r {
                Some(s) => i < self@.len() && *s == self@[i as int],
                None => i >= self@.len(),
            },
    {
        if i < self.items.len() {
            Some(&self.items[i])
        } else {
            None
        }
    }

    pub(crate) fn get_at(&self, i: usize) -> (r: &Status<A>)
        requires
            i < self@.len(),
        ensures
            *r == self@[i as int],
    {
        &self.items[i]
    }

    pub(crate) fn get_mut_at(&mut self, i: usize) -> (r: &mut Status<A>)
        requires
            i < old(self)@.len(),
        ensures
            *r == old(self)@[i as int],
            final(self)@ == old(self)@.update(i as int, *final(r)),
    {
        &mut self.items[i]
    }
}

impl<A: PartialEq> PartialEq for Replies<A> {
    /// Element-wise comparison of the item and its replies.
    fn eq(&self, other: &Self) -> (r: bool) {
        self.items == other.items
    }
}

impl<A: PartialEq> vstd::std_specs::cmp::PartialEqSpecImpl for Replies<A> {
    open spec fn obeys_eq_spec() -> bool {
        <Vec<Status<A>> as PartialEqSpec>::obeys_eq_spec()
    }

    closed spec fn eq_spec(&self, other: &Self) -> bool {
        <Vec<Status<A>> as PartialEqSpec>::eq_spec(&self.items, &other.items)
    }
}

/// The live elements of one reply group, in order.
pub open spec fn spec_live_only<A>(s: Seq<Status<A>>) -> Seq<Status<A>>
    decreases s.len(),
{
    if s.len() == 0 {
        Seq::empty()
    } else {
        let init = spec_live_only(s.drop_last());
        if s.last().is_live() {
            init.push(s.last())
        } else {
            init
        }
    }
}

/// What pruning leaves of the main thread: each group keeps its live
/// elements, groups left empty disappear.
pub open spec fn spec_prune_groups<A>(groups: Seq<Seq<Status<A>>>) -> Seq<Seq<Status<A>>>
    decreases groups.len(),
{
    if groups.len() == 0 {
        Seq::empty()
    } else {
        let init = spec_prune_groups(groups.drop_last());
        let keep = spec_live_only(groups.last());
        if keep.len() > 0 {
            init.push(keep)
        } else {
            init
        }
    }
}

/// The root item followed by a main thread of reply groups, with a cursor.
#[derive(Debug, Clone)]
pub struct Thread<A> {
    finger: Finger,
    root: Status<A>,
    main_thread: Vec<Replies<A>>,
}

impl<A> Thread<A> {
    /// Where the cursor stands.
    pub closed spec fn cursor(self) -> Finger {
        self.finger
    }

    /// The root item.
    pub closed spec fn root_spec(self) -> Status<A> {
        self.root
    }

    /// The main thread's reply groups.
    pub closed spec fn main_spec(self) -> Seq<Replies<A>> {
        self.main_thread@
    }

    /// The main thread as plain sequences.
    pub open spec fn groups(self) -> Seq<Seq<Status<A>>> {
        self.main_spec().map_values(|r: Replies<A>| r@)
    }

    /// Every group is non-empty and the cursor is in bounds.
    pub open spec fn wf(self) -> bool {
        &&& forall|i: int|
            0 <= i < self.main_spec().len() ==> (#[trigger] self.main_spec()[i]).wf()
        &&& match self.cursor() {
            Finger::Root => true,
            Finger::Main(i) => (i as int) < self.main_spec().len(),
            Finger::Thread((i, j)) => (i as int) < self.main_spec().len() && (j as int)
                < self.main_spec()[i as int]@.len(),
        }
    }

    /// The item the cursor points at.
    pub open spec fn current(self) -> Status<A>
        recommends
            self.wf(),
    {
        match self.cursor() {
            Finger::Root => self.root_spec(),
            Finger::Main(i) => self.main_spec()[i as int]@[0],
            Finger::Thread((i, j)) => self.main_spec()[i as int]@[j as int],
        }
    }

    /// A new thread whose root is `a`, the cursor on the root.
    pub fn new(a: A) -> (r: Self)
        ensures
            r.wf(),
            r.cursor() == Finger::Root,
            r.root_spec() == Status::Live(a),
            r.main_spec() =~= Seq::<Replies<A>>::empty(),
            r.current() == Status::Live(a),
    {
        Thread { finger: Finger::Root, root: Status::Live(a), main_thread: Vec::new() }
    }

    /// Move the cursor to the previous item: within the main thread or
    /// within the current reply thread, as `reply_to` says. From the first
    /// reply of a thread the cursor moves up to the main-thread item; from
    /// the first main-thread item it moves to the root.
    pub fn previous_reply(&mut self, reply_to: ReplyTo) -> (r: Result<(), Error>)
        requires
            old(self).wf(),
        ensures
            final(self).wf(),
            final(self).root_spec() == old(self).root_spec(),
            final(self).main_spec() == old(self).main_spec(),
            match old(self).cursor() {
                Finger::Root => r == Err::<(), Error>(Error::PreviousMainOutOfBounds) && final(self).cursor() == old(self).cursor(),
                Finger::Main(i) => if i == 0 {
                    r == Ok::<(), Error>(()) && final(self).cursor() == Finger::Root
                } else {
                    match reply_to {
                        ReplyTo::Main => r == Ok::<(), Error>(()) && final(self).cursor()
                            == Finger::Main((i - 1) as usize),
                        ReplyTo::Thread => r == Err::<(), Error>(Error::PreviousThreadOnMain)
                            && final(self).cursor() == old(self).cursor(),
                    }
                },
                Finger::Thread((i, j)) => match reply_to {
                    ReplyTo::Main => if i == 0 {
                        r == Err::<(), Error>(Error::PreviousMainOutOfBounds) && final(self).cursor() == old(self).cursor()
                    } else {
                        r == Ok::<(), Error>(()) && final(self).cursor() == Finger::Main(
                            (i - 1) as usize,
                        )
                    },
                    ReplyTo::Thread => r == Ok::<(), Error>(()) && final(self).cursor() == (if j
                        == 0 {
                        Finger::Main(i)
                    } else {
                        Finger::Thread((i, (j - 1) as usize))
                    }),
                },
            },
    {
        match self.finger {
            Finger::Root => Err(Error::PreviousMainOutOfBounds),
            Finger::Main(main_ix) => {
                if main_ix == 0 {
                    self.finger = Finger::Root;
                    Ok(())
                } else {
                    match reply_to {
                        ReplyTo::Main => {
                            self.finger = Finger::Main(main_ix - 1);
                            Ok(())
                        },
                        ReplyTo::Thread => Err(Error::PreviousThreadOnMain),
                    }
                }
            },
            Finger::Thread((main_ix, replies_ix)) => {
                match reply_to {
                    ReplyTo::Main => {
                        if main_ix == 0 {
                            Err(Error::PreviousMainOutOfBounds)
                        } else {
                            self.finger = Finger::Main(main_ix - 1);
                            Ok(())
                        }
                    },
                    ReplyTo::Thread => {
                        // From the first reply the cursor moves up to the
                        // main-thread item.
                        if replies_ix == 0 {
                            self.finger = Finger::Main(main_ix);
                        } else {
                            self.finger = Finger::Thread((main_ix, replies_ix - 1));
                        }
                        Ok(())
                    },
                }
            },
        }
    }

    /// Move the cursor to the next item. From the root the first
    /// main-thread item is next, whatever `reply_to` says; moving into a
    /// reply thread starts at its first reply.
    pub fn next_reply(&mut self, reply_to: ReplyTo) -> (r: Result<(), Error>)
        requires
            old(self).wf(),
        ensures
            final(self).wf(),
            final(self).root_spec() == old(self).root_spec(),
            final(self).main_spec() == old(self).main_spec(),
            match old(self).cursor() {
                Finger::Root => if old(self).main_spec().len() == 0 {
                    r == Err::<(), Error>(Error::NextMainOutOfBounds) && final(self).cursor()
                        == old(self).cursor()
                } else {
                    r == Ok::<(), Error>(()) && final(self).cursor() == Finger::Main(0)
                },
                Finger::Main(i) => match reply_to {
                    ReplyTo::Main => if i as int == old(self).main_spec().len() - 1 {
                        r == Err::<(), Error>(Error::NextMainOutOfBounds) && final(self).cursor()
                            == old(self).cursor()
                    } else {
                        r == Ok::<(), Error>(()) && final(self).cursor() == Finger::Main(
                            (i + 1) as usize,
                        )
                    },
                    ReplyTo::Thread => if old(self).main_spec()[i as int]@.len() >= 2 {
                        r == Ok::<(), Error>(()) && final(self).cursor() == Finger::Thread((i, 1))
                    } else {
                        r == Err::<(), Error>(Error::NextRepliesOutOfBound) && final(self).cursor()
                            == old(self).cursor()
                    },
                },
                Finger::Thread((i, j)) => match reply_to {
                    ReplyTo::Main => if i as int == old(self).main_spec().len() - 1 {
                        r == Err::<(), Error>(Error::NextMainOutOfBounds) && final(self).cursor()
                            == old(self).cursor()
                    } else {
                        r == Ok::<(), Error>(()) && final(self).cursor() == Finger::Main(
                            (i + 1) as usize,
                        )
                    },
                    ReplyTo::Thread => if j as int == old(self).main_spec()[i as int]@.len() - 1 {
                        r == Err::<(), Error>(Error::NextRepliesOutOfBound) && final(self).cursor()
                            == old(self).cursor()
                    } else {
                        r == Ok::<(), Error>(()) && final(self).cursor() == Finger::Thread(
                            (i, (j + 1) as usize),
                        )
                    },
                },
            },
    {
        match self.finger {
            Finger::Root => {
                if self.main_thread.len() == 0 {
                    Err(Error::NextMainOutOfBounds)
                } else {
                    self.finger = Finger::Main(0);
                    Ok(())
                }
            },
            Finger::Main(main_ix) => {
                match reply_to {
                    ReplyTo::Main => {
                        if main_ix == self.main_thread.len() - 1 {
                            Err(Error::NextMainOutOfBounds)
                        } else {
                            self.finger = Finger::Main(main_ix + 1);
                            Ok(())
                        }
                    },
                    ReplyTo::Thread => {
                        // The replies proper are the tail of the group, so
                        // a group of one has none to move into.
                        if self.main_thread[main_ix].len() >= 2 {
                            self.finger = Finger::Thread((main_ix, 1));
                            Ok(())
                        } else {
                            Err(Error::NextRepliesOutOfBound)
                        }
                    },
                }
            },
            Finger::Thread((main_ix, replies_ix)) => {
                match reply_to {
                    ReplyTo::Main => {
                        if main_ix == self.main_thread.len() - 1 {
                            Err(Error::NextMainOutOfBounds)
                        } else {
                            self.finger = Finger::Main(main_ix + 1);
                            Ok(())
                        }
                    },
                    ReplyTo::Thread => {
                        if replies_ix == self.main_thread[main_ix].len() - 1 {
                            Err(Error::NextRepliesOutOfBound)
                        } else {
                            self.finger = Finger::Thread((main_ix, replies_ix + 1));
                            Ok(())
                        }
                    },
                }
            },
        }
    }

    /// Move the cursor back to the root.
    pub fn root(&mut self)
        requires
            old(self).wf(),
        ensures
            final(self).wf(),
            final(self).root_spec() == old(self).root_spec(),
            final(self).main_spec() == old(self).main_spec(),
            final(self).cursor() == Finger::Root,
    {
        self.finger = Finger::Root;
    }

    fn reply_main(&mut self, a: A)
        requires
            old(self).wf(),
        ensures
            final(self).wf(),
            final(self).root_spec() == old(self).root_spec(),
            final(self).main_spec().len() == old(self).main_spec().len() + 1,
            forall|m: int|
                0 <= m < old(self).main_spec().len() ==> #[trigger] final(self).main_spec()[m]
                    == old(self).main_spec()[m],
            final(self).main_spec()[old(self).main_spec().len() as int]@ =~= seq![
                Status::<A>::Live(a),
            ],
            final(self).cursor() == Finger::Main(old(self).main_spec().len() as usize),
    {
        self.main_thread.push(Replies::new(a));
        self.finger = Finger::Main(self.main_thread.len() - 1);
    }

    fn reply_thread(&mut self, main_ix: usize, a: A)
        requires
            old(self).wf(),
            (main_ix as int) < old(self).main_spec().len(),
        ensures
            final(self).wf(),
            final(self).root_spec() == old(self).root_spec(),
            final(self).main_spec().len() == old(self).main_spec().len(),
            forall|m: int|
                0 <= m < old(self).main_spec().len() && m != main_ix as int
                    ==> #[trigger] final(self).main_spec()[m] == old(self).main_spec()[m],
            final(self).main_spec()[main_ix as int]@ == old(self).main_spec()[main_ix as int]@.push(
                Status::Live(a),
            ),
            final(self).cursor() == Finger::Thread(
                (main_ix, old(self).main_spec()[main_ix as int]@.len() as usize),
            ),
    {
        let replies = &mut self.main_thread[main_ix];
        replies.reply(a);
        let replies_ix = replies.len() - 1;
        self.finger = Finger::Thread((main_ix, replies_ix));
    }

    /// Reply to the thread: at the root, always onto the main thread; at a
    /// main-thread item or a reply, `reply_to` chooses between a new
    /// main-thread item and a reply to the current main-thread item. The
    /// cursor ends on the new item.
    pub fn reply(&mut self, a: A, reply_to: ReplyTo)
        requires
            old(self).wf(),
        ensures
            final(self).wf(),
            final(self).root_spec() == old(self).root_spec(),
            match old(self).cursor() {
                Finger::Root => spec_replied_main(*old(self), *final(self), a),
                Finger::Main(i) => match reply_to {
                    ReplyTo::Main => spec_replied_main(*old(self), *final(self), a),
                    ReplyTo::Thread => spec_replied_thread(*old(self), *final(self), i as int, a),
                },
                Finger::Thread((i, j)) => match reply_to {
                    ReplyTo::Main => spec_replied_main(*old(self), *final(self), a),
                    ReplyTo::Thread => spec_replied_thread(*old(self), *final(self), i as int, a),
                },
            },
    {
        match self.finger {
            Finger::Root => self.reply_main(a),
            Finger::Main(main_ix) => match reply_to {
                ReplyTo::Main => self.reply_main(a),
                ReplyTo::Thread => self.reply_thread(main_ix, a),
            },
            Finger::Thread((main_ix, _)) => match reply_to {
                ReplyTo::Main => self.reply_main(a),
                ReplyTo::Thread => self.reply_thread(main_ix, a),
            },
        }
    }

    /// Mark the item under the cursor dead. The item stays in the thread;
    /// only its liveness changes (to a clone of its content, marked dead).
    /// The root cannot be deleted.
    pub fn delete(&mut self) -> (r: Result<(), Error>) where A: Clone
        requires
            old(self).wf(),
        ensures
            final(self).wf(),
            final(self).root_spec() == old(self).root_spec(),
            final(self).cursor() == old(self).cursor(),
            match old(self).cursor() {
                Finger::Root => r == Err::<(), Error>(Error::DeleteFirstMain) && final(self).main_spec() == old(self).main_spec(),
                Finger::Main(i) => r == Ok::<(), Error>(()) && spec_killed_at(
                    *old(self),
                    *final(self),
                    i as int,
                    0,
                ),
                Finger::Thread((i, j)) => r == Ok::<(), Error>(()) && spec_killed_at(
                    *old(self),
                    *final(self),
                    i as int,
                    j as int,
                ),
            },
    {
        match self.finger {
            Finger::Root => Err(Error::DeleteFirstMain),
            Finger::Main(main_ix) => {
                let replies = &mut self.main_thread[main_ix];
                let node = replies.first_mut();
                node.kill();
                Ok(())
            },
            Finger::Thread((main_ix, replies_ix)) => {
                let replies = &mut self.main_thread[main_ix];
                let node = replies.get_mut_at(replies_ix);
                node.kill();
                Ok(())
            },
        }
    }

    /// Apply `f` to the content of the item under the cursor; its liveness
    /// and everything else stay put. `f` receives a clone of the content.
    pub fn edit<F: FnOnce(A) -> A>(&mut self, f: F) -> (r: Result<(), Error>) where A: Clone
        requires
            old(self).wf(),
            forall|c: A|
                cloned(old(self).current().value_spec(), c) ==> #[trigger] call_requires(f, (c,)),
        ensures
            final(self).wf(),
            r == Ok::<(), Error>(()),
            final(self).cursor() == old(self).cursor(),
            final(self).current().is_live() == old(self).current().is_live(),
            exists|c: A|
                cloned(old(self).current().value_spec(), c) && call_ensures(
                    f,
                    (c,),
                    final(self).current().value_spec(),
                ),
            spec_edited_at(*old(self), *final(self)),
    {
        let ghost fspec = f;
        match self.finger {
            Finger::Root => {
                let cur = self.root.get().clone();
                let ghost c0 = cur;
                let v = f(cur);
                let ghost v0 = v;
                *self.root.get_mut() = v;
                proof {
                    assert(cloned(old(self).current().value_spec(), c0));
                    assert(call_ensures(fspec, (c0,), v0));
                }
                Ok(())
            },
            Finger::Main(main_ix) => {
                let replies = &mut self.main_thread[main_ix];
                let node = replies.first_mut();
                let cur = node.get().clone();
                let ghost c0 = cur;
                let v = f(cur);
                let ghost v0 = v;
                *node.get_mut() = v;
                proof {
                    assert(cloned(old(self).current().value_spec(), c0));
                    assert(call_ensures(fspec, (c0,), v0));
                }
                Ok(())
            },
            Finger::Thread((main_ix, replies_ix)) => {
                let replies = &mut self.main_thread[main_ix];
                let node = replies.get_mut_at(replies_ix);
                let cur = node.get().clone();
                let ghost c0 = cur;
                let v = f(cur);
                let ghost v0 = v;
                *node.get_mut() = v;
                proof {
                    assert(cloned(old(self).current().value_spec(), c0));
                    assert(call_ensures(fspec, (c0,), v0));
                }
                Ok(())
            },
        }
    }

    /// The item under the cursor.
    pub fn view(&self) -> (r: Result<&Status<A>, Error>)
        requires
            self.wf(),
        ensures
            match r {
                Ok(s) => *s == self.current(),
                Err(_) => false,
            },
    {
        match self.finger {
            Finger::Root => Ok(&self.root),
            Finger::Main(main_ix) => Ok(self.main_thread[main_ix].first()),
            Finger::Thread((main_ix, replies_ix)) => Ok(
                self.main_thread[main_ix].get_at(replies_ix),
            ),
        }
    }

    /// The current main-thread item expanded to the full view of its
    /// group: at the root, the root followed by each main-thread item;
    /// elsewhere, the whole group of the current main-thread item. The
    /// elements are clones of the thread's.
    pub fn expand(&self) -> (r: crate::nonempty::NonEmptyVec<Status<A>>) where A: Clone
        requires
            self.wf(),
        ensures
            r@.len() == self.spec_expanded().len(),
            forall|m: int|
                0 <= m < r@.len() ==> cloned(self.spec_expanded()[m], #[trigger] r@[m]),
    {
        match self.finger {
            Finger::Root => {
                let mut out = crate::nonempty::NonEmptyVec::new(self.root.clone());
                let mut i: usize = 0;
                while i < self.main_thread.len()
                    invariant
                        self.wf(),
                        i <= self.main_spec().len(),
                        out@.len() == 1 + i,
                        forall|m: int|
                            0 <= m < out@.len() ==> cloned(
                                self.spec_expanded()[m],
                                #[trigger] out@[m],
                            ),
                        self.cursor() == Finger::Root,
                    decreases self.main_spec().len() - i,
                {
                    let first = self.main_thread[i].first().clone();
                    out.push(first);
                    i = i + 1;
                }
                out
            },
            Finger::Main(main_ix) => self.expand_group(main_ix),
            Finger::Thread((main_ix, _)) => self.expand_group(main_ix),
        }
    }

    fn expand_group(&self, main_ix: usize) -> (r: crate::nonempty::NonEmptyVec<Status<A>>) where
        A: Clone,

        requires
            self.wf(),
            (main_ix as int) < self.main_spec().len(),
            (match self.cursor() {
                Finger::Root => false,
                Finger::Main(i) => i == main_ix,
                Finger::Thread((i, _)) => i == main_ix,
            }),
        ensures
            r@.len() == self.spec_expanded().len(),
            forall|m: int|
                0 <= m < r@.len() ==> cloned(self.spec_expanded()[m], #[trigger] r@[m]),
    {
        let replies = &self.main_thread[main_ix];
        let mut out = crate::nonempty::NonEmptyVec::new(replies.first().clone());
        let mut j: usize = 1;
        while j < replies.len()
            invariant
                self.wf(),
                (main_ix as int) < self.main_spec().len(),
                replies == self.main_spec()[main_ix as int],
                1 <= j <= replies@.len(),
                out@.len() == j,
                forall|m: int| 0 <= m < j ==> cloned(replies@[m], #[trigger] out@[m]),
            decreases replies@.len() - j,
        {
            let s = replies.get_at(j).clone();
            out.push(s);
            j = j + 1;
        }
        out
    }

    /// What [`Thread::expand`] describes, before cloning.
    pub open spec fn spec_expanded(self) -> Seq<Status<A>> {
        match self.cursor() {
            Finger::Root => seq![self.root_spec()] + self.main_spec().map_values(
                |r: Replies<A>| r@[0],
            ),
            Finger::Main(i) => self.main_spec()[i as int]@,
            Finger::Thread((i, _)) => self.main_spec()[i as int]@,
        }
    }

    /// Drop the dead items and the groups they leave empty, so that what
    /// remains is exactly the live view of the thread. Pruning can remove
    /// the group the cursor stood in, so the cursor returns to the root.
    pub fn prune(&mut self) where A: Clone
        requires
            old(self).wf(),
        ensures
            final(self).wf(),
            final(self).root_spec() == old(self).root_spec(),
            final(self).cursor() == Finger::Root,
            final(self).groups() == spec_prune_groups(old(self).groups()),
    {
        let ghost old_groups = self.groups();
        let mut taken: Vec<Replies<A>> = Vec::new();
        core::mem::swap(&mut self.main_thread, &mut taken);
        let ghost all = taken@;
        let mut new_main: Vec<Replies<A>> = Vec::new();
        let ghost done: int = 0;
        proof {
            assert(all.map_values(|r: Replies<A>| r@) =~= old_groups);
            assert(new_main@.map_values(|r: Replies<A>| r@) =~= spec_prune_groups(
                old_groups.take(0),
            ));
        }
        while taken.len() > 0
            invariant
                0 <= done <= all.len(),
                taken@ == all.skip(done),
                all.map_values(|r: Replies<A>| r@) == old_groups,
                new_main@.map_values(|r: Replies<A>| r@) == spec_prune_groups(old_groups.take(
                    done,
                )),
                forall|m: int| 0 <= m < new_main@.len() ==> (#[trigger] new_main@[m]).wf(),
            decreases taken@.len(),
        {
            let group = taken.remove(0);
            proof {
                assert(group@ == old_groups[done]);
                assert(taken@ =~= all.skip(done + 1));
            }
            let items = group.into_items();
            let ghost group_view = items@;
            let mut kept: Vec<Status<A>> = Vec::new();
            let mut items = items;
            let ghost inner: int = 0;
            proof {
                assert(kept@ =~= spec_live_only(group_view.take(0)));
            }
            while items.len() > 0
                invariant
                    0 <= inner <= group_view.len(),
                    items@ == group_view.skip(inner),
                    kept@ == spec_live_only(group_view.take(inner)),
                decreases items@.len(),
            {
                let s = items.remove(0);
                proof {
                    assert(items@ =~= group_view.skip(inner + 1));
                    assert(group_view.take(inner + 1).drop_last() =~= group_view.take(inner));
                    assert(group_view.take(inner + 1).last() == group_view[inner]);
                }
                match s.live() {
                    Some(_) => {
                        kept.push(s);
                    },
                    None => {},
                }
                proof {
                    inner = inner + 1;
                }
            }
            proof {
                assert(group_view.take(group_view.len() as int) =~= group_view);
            }
            if kept.len() > 0 {
                new_main.push(Replies::from_items(kept));
            }
            proof {
                assert(old_groups.take(done + 1).drop_last() =~= old_groups.take(done));
                assert(old_groups.take(done + 1).last() == old_groups[done]);
                assert(new_main@.map_values(|r: Replies<A>| r@) =~= spec_prune_groups(
                    old_groups.take(done + 1),
                ));
            }
            proof {
                done = done + 1;
            }
        }
        proof {
            assert(old_groups.take(done) =~= old_groups);
        }
        self.main_thread = new_main;
        self.finger = Finger::Root;
        proof {
            assert(self.groups() =~= spec_prune_groups(old_groups));
        }
    }
}

/// What replying onto the main thread does: one new group holding just the
/// live reply, everything else untouched, the cursor on the new item.
pub open spec fn spec_replied_main<A>(pre: Thread<A>, post: Thread<A>, a: A) -> bool {
    &&& post.main_spec().len() == pre.main_spec().len() + 1
    &&& forall|m: int|
        0 <= m < pre.main_spec().len() ==> #[trigger] post.main_spec()[m] == pre.main_spec()[m]
    &&& post.main_spec()[pre.main_spec().len() as int]@ =~= seq![Status::<A>::Live(a)]
    &&& post.cursor() == Finger::Main(pre.main_spec().len() as usize)
}

/// What replying into the reply thread of main-thread item `i` does: that
/// group alone grows by the live reply, and the cursor lands on it.
pub open spec fn spec_replied_thread<A>(pre: Thread<A>, post: Thread<A>, i: int, a: A) -> bool {
    &&& post.main_spec().len() == pre.main_spec().len()
    &&& forall|m: int|
        0 <= m < pre.main_spec().len() && m != i ==> #[trigger] post.main_spec()[m]
            == pre.main_spec()[m]
    &&& post.main_spec()[i]@ == pre.main_spec()[i]@.push(Status::Live(a))
    &&& post.cursor() == Finger::Thread(
        (i as usize, pre.main_spec()[i]@.len() as usize),
    )
}

/// What deleting at `(i, j)` does: the one status there goes dead with a
/// clone of its content, the rest of the thread stands as it was.
pub open spec fn spec_killed_at<A: Clone>(pre: Thread<A>, post: Thread<A>, i: int, j: int) -> bool {
    &&& post.main_spec().len() == pre.main_spec().len()
    &&& forall|m: int|
        0 <= m < pre.main_spec().len() && m != i ==> #[trigger] post.main_spec()[m]
            == pre.main_spec()[m]
    &&& post.main_spec()[i]@ == pre.main_spec()[i]@.update(j, post.main_spec()[i]@[j])
    &&& !post.main_spec()[i]@[j].is_live()
    &&& cloned(pre.main_spec()[i]@[j].value_spec(), post.main_spec()[i]@[j].value_spec())
}

/// What editing does to the structure: everything except the one status
/// under the cursor stands as it was, and that status keeps its position
/// and liveness.
pub open spec fn spec_edited_at<A>(pre: Thread<A>, post: Thread<A>) -> bool {
    match pre.cursor() {
        Finger::Root => post.main_spec() == pre.main_spec(),
        Finger::Main(i) => {
            &&& post.root_spec() == pre.root_spec()
            &&& post.main_spec().len() == pre.main_spec().len()
            &&& forall|m: int|
                0 <= m < pre.main_spec().len() && m != i as int ==> #[trigger] post.main_spec()[m]
                    == pre.main_spec()[m]
            &&& post.main_spec()[i as int]@ == pre.main_spec()[i as int]@.update(
                0,
                post.main_spec()[i as int]@[0],
            )
        },
        Finger::Thread((i, j)) => {
            &&& post.root_spec() == pre.root_spec()
            &&& post.main_spec().len() == pre.main_spec().len()
            &&& forall|m: int|
                0 <= m < pre.main_spec().len() && m != i as int ==> #[trigger] post.main_spec()[m]
                    == pre.main_spec()[m]
            &&& post.main_spec()[i as int]@ == pre.main_spec()[i as int]@.update(
                j as int,
                post.main_spec()[i as int]@[j as int],
            )
        },
    }
}

impl<A: PartialEq> PartialEq for Thread<A> {
    /// Threads compare by their main threads, as a history of groups; the
    /// cursor does not enter into it.
    fn eq(&self, other: &Self) -> (r: bool) {
        self.main_thread == other.main_thread
    }
}

impl<A: PartialEq> vstd::std_specs::cmp::PartialEqSpecImpl for Thread<A> {
    open spec fn obeys_eq_spec() -> bool {
        <Vec<Replies<A>> as PartialEqSpec>::obeys_eq_spec()
    }

    closed spec fn eq_spec(&self, other: &Self) -> bool {
        <Vec<Replies<A>> as PartialEqSpec>::eq_spec(&self.main_thread, &other.main_thread)
    }
}

/// What `==` on reply groups means: the same length and element-wise equal
/// statuses (stated here because the group's comparison goes through its
/// private vector).
pub proof fn lemma_replies_eq_spec<A: PartialEq>(x: Replies<A>, y: Replies<A>)
    ensures
        x.eq_spec(&y) == (x@.len() == y@.len() && (forall|i: int|
            0 <= i < x@.len() ==> #[trigger] x@[i].eq_spec(&y@[i]))),
{
}

/// What `==` on threads means: the main threads compare group by group;
/// the root and the cursor do not enter into it.
pub proof fn lemma_thread_eq_spec<A: PartialEq>(x: Thread<A>, y: Thread<A>)
    ensures
        x.eq_spec(&y) == (x.main_spec().len() == y.main_spec().len() && (forall|i: int|
            0 <= i < x.main_spec().len() ==> #[trigger] x.main_spec()[i].eq_spec(
                &y.main_spec()[i],
            ))),
{
}

} // verus!
